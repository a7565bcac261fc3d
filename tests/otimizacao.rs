use otimizacao_coleta::{
    calcular_metricas_consumo, benchmark_padrao, executar_otimizacao_comparativa,
    otimizar_rota_por_prioridade, otimizar_rota_vizinho_proximo, Aresta, BenchmarkInfo,
    DadosPrevisao, PedidoOtimizacao, ServicoDemanda, ServicoDistancia,
};

fn s(x: &str) -> String {
    x.to_string()
}

/// The seed table: garagem-A 5.2, garagem-B 8.1, garagem-C 7.5, A-B 3.0,
/// A-C 10.8, B-C 4.4 (thousandths of a km).
fn grafo_semente() -> ServicoDistancia {
    let mut g = ServicoDistancia::new("data/distancias.json", None);
    g.adicionar_distancia(s("garagem"), s("ponto_A"), 5200);
    g.adicionar_distancia(s("garagem"), s("ponto_B"), 8100);
    g.adicionar_distancia(s("garagem"), s("ponto_C"), 7500);
    g.adicionar_distancia(s("ponto_A"), s("ponto_B"), 3000);
    g.adicionar_distancia(s("ponto_A"), s("ponto_C"), 10800);
    g.adicionar_distancia(s("ponto_B"), s("ponto_C"), 4400);
    g
}

fn pedido_abc() -> PedidoOtimizacao {
    PedidoOtimizacao {
        garagem_id: s("garagem"),
        pontos_a_visitar: vec![s("ponto_A"), s("ponto_B"), s("ponto_C")],
    }
}

fn nomes(v: &[&str]) -> Vec<String> {
    v.iter().map(|x| x.to_string()).collect()
}

#[test]
fn simetria_apos_adicionar() {
    let mut g = ServicoDistancia::new("t.json", None);
    g.adicionar_distancia(s("x"), s("y"), 1234);
    assert_eq!(g.get_custo("x", "y"), Some(1234));
    assert_eq!(g.get_custo("y", "x"), Some(1234));
    assert_eq!(g.get_custo("x", "z"), None);
}

#[test]
fn adicionar_substitui_custo() {
    let mut g = grafo_semente();
    g.adicionar_distancia(s("ponto_B"), s("ponto_A"), 9000);
    assert_eq!(g.get_custo("ponto_A", "ponto_B"), Some(9000));
    assert_eq!(g.get_custo("ponto_B", "ponto_A"), Some(9000));
    assert_eq!(g.get_custo("garagem", "ponto_A"), Some(5200));
}

#[test]
fn idempotencia_da_tabela() {
    let mut g = grafo_semente();
    g.adicionar_distancia(s("ponto_A"), s("ponto_D"), 2500);
    let antes: Vec<(String, String, u32)> =
        g.tabela().into_iter().map(|a| (a.origem, a.destino, a.custo)).collect();
    g.adicionar_distancia(s("ponto_A"), s("ponto_D"), 2500);
    let depois: Vec<(String, String, u32)> =
        g.tabela().into_iter().map(|a| (a.origem, a.destino, a.custo)).collect();
    assert_eq!(antes, depois);
    assert_eq!(antes.len(), 14);
}

#[test]
fn ida_e_volta_da_tabela() {
    let g = grafo_semente();
    let h = ServicoDistancia::new("outro.json", Some(g.tabela()));
    let ids = ["garagem", "ponto_A", "ponto_B", "ponto_C", "ponto_X"];
    for a in ids.iter() {
        for b in ids.iter() {
            assert_eq!(g.get_custo(a, b), h.get_custo(a, b));
        }
    }
    assert_eq!(h.caminho_arquivo(), "outro.json");
}

#[test]
fn carregar_tabela_assimetrica() {
    let t = vec![
        Aresta { origem: s("a"), destino: s("b"), custo: 10 },
        Aresta { origem: s("a"), destino: s("b"), custo: 20 },
    ];
    let g = ServicoDistancia::new("t.json", Some(t));
    assert_eq!(g.get_custo("a", "b"), Some(20));
    assert_eq!(g.get_custo("b", "a"), None);
    assert_eq!(g.tabela().len(), 1);
}

#[test]
fn carregar_sem_fonte_da_grafo_vazio() {
    let g = ServicoDistancia::new("ausente.json", None);
    assert_eq!(g.get_custo("garagem", "ponto_A"), None);
    assert!(g.tabela().is_empty());
}

#[test]
fn previsao_ultima_escrita_vence() {
    let mut d = ServicoDemanda::new();
    assert_eq!(d.get_demanda_ponto("ponto_A"), None);
    d.atualizar_previsao(DadosPrevisao { ponto_id: s("ponto_A"), regiao: s("norte"), previsao_demanda: 5 });
    d.atualizar_previsao(DadosPrevisao { ponto_id: s("ponto_B"), regiao: s("sul"), previsao_demanda: 7 });
    d.atualizar_previsao(DadosPrevisao { ponto_id: s("ponto_A"), regiao: s("leste"), previsao_demanda: -3 });
    assert_eq!(d.get_demanda_ponto("ponto_A"), Some(-3));
    assert_eq!(d.get_demanda_ponto("ponto_B"), Some(7));
}

#[test]
fn metricas_do_benchmark() {
    let b = BenchmarkInfo { consumo_medio_kml: 2000, preco_diesel_reais_litro: 600 };
    let m = calcular_metricas_consumo(10000, &b);
    assert_eq!(m.distancia_total_km, 1000);
    assert_eq!(m.litros_consumidos, 500);
    assert_eq!(m.custo_financeiro_reais, 3000);
}

#[test]
fn metricas_arredondam_metade_para_cima() {
    let b = benchmark_padrao();
    // 0.005 km: 0.01 km, 0.0025 l -> 0.00, 0.015 -> 0.02
    let m = calcular_metricas_consumo(5, &b);
    assert_eq!(m.distancia_total_km, 1);
    assert_eq!(m.litros_consumidos, 0);
    assert_eq!(m.custo_financeiro_reais, 2);
    // 20.1 km: 10.05 l, 60.30
    let m = calcular_metricas_consumo(20100, &b);
    assert_eq!(m.distancia_total_km, 2010);
    assert_eq!(m.litros_consumidos, 1005);
    assert_eq!(m.custo_financeiro_reais, 6030);
}

#[test]
fn metricas_da_maior_distancia() {
    let b = BenchmarkInfo { consumo_medio_kml: 1, preco_diesel_reais_litro: u32::MAX };
    let m = calcular_metricas_consumo(u64::MAX, &b);
    assert_eq!(m.distancia_total_km, ((u64::MAX as u128 * 2 + 10) / 20) as u64);
    assert_eq!(m.litros_consumidos, u64::MAX as u128 * 100);
    assert_eq!(m.custo_financeiro_reais, u64::MAX as u128 * u32::MAX as u128);
}

#[test]
fn cenario_a_gulosa() {
    let g = grafo_semente();
    let r = otimizar_rota_vizinho_proximo(&pedido_abc(), &g);
    assert_eq!(r.sequencia_pontos, nomes(&["garagem", "ponto_A", "ponto_B", "ponto_C", "garagem"]));
    assert_eq!(r.distancia_total_km, 20100);
    assert!(r.completa);
    assert!(r.pontos_nao_visitados.is_empty());
}

#[test]
fn cenario_a_prioridade_sem_demanda() {
    let g = grafo_semente();
    let d = ServicoDemanda::new();
    let r = otimizar_rota_por_prioridade(&pedido_abc(), &g, &d);
    assert_eq!(r.sequencia_pontos, nomes(&["garagem", "ponto_A", "ponto_B", "ponto_C", "garagem"]));
    assert_eq!(r.distancia_total_km, 20100);
    assert!(r.completa);
}

#[test]
fn cenario_b_demanda_reordena() {
    let g = grafo_semente();
    let mut d = ServicoDemanda::new();
    d.atualizar_previsao(DadosPrevisao { ponto_id: s("ponto_C"), regiao: s("centro"), previsao_demanda: 10 });
    let r = otimizar_rota_por_prioridade(&pedido_abc(), &g, &d);
    assert_eq!(r.sequencia_pontos, nomes(&["garagem", "ponto_C", "ponto_B", "ponto_A", "garagem"]));
    assert_eq!(r.distancia_total_km, 20100);
    let gulosa = otimizar_rota_vizinho_proximo(&pedido_abc(), &g);
    assert_eq!(gulosa.sequencia_pontos, nomes(&["garagem", "ponto_A", "ponto_B", "ponto_C", "garagem"]));
}

#[test]
fn comparacao_completa() {
    let g = grafo_semente();
    let mut d = ServicoDemanda::new();
    d.atualizar_previsao(DadosPrevisao { ponto_id: s("ponto_C"), regiao: s("centro"), previsao_demanda: 10 });
    let c = executar_otimizacao_comparativa(&g, &d, &pedido_abc());
    assert_eq!(c.rota_gulosa.tipo_otimizacao, "Gulosa (Menor Custo)");
    assert_eq!(c.rota_prioridade.tipo_otimizacao, "Prioridade (Demanda Urgente)");
    assert_eq!(c.rota_gulosa.metricas.distancia_total_km, 2010);
    assert_eq!(c.rota_gulosa.metricas.litros_consumidos, 1005);
    assert_eq!(c.rota_gulosa.metricas.custo_financeiro_reais, 6030);
    assert_eq!(c.rota_prioridade.sequencia_pontos, nomes(&["garagem", "ponto_C", "ponto_B", "ponto_A", "garagem"]));
    assert_eq!(c.benchmark_usado.consumo_medio_kml, 2000);
    assert_eq!(c.benchmark_usado.preco_diesel_reais_litro, 600);
}

#[test]
fn lista_vazia_so_garagem() {
    let g = grafo_semente();
    let p = PedidoOtimizacao { garagem_id: s("garagem"), pontos_a_visitar: vec![] };
    let r = otimizar_rota_vizinho_proximo(&p, &g);
    assert_eq!(r.sequencia_pontos, nomes(&["garagem"]));
    assert_eq!(r.distancia_total_km, 0);
    assert!(r.completa);
}

#[test]
fn ponto_inalcancavel_para_cedo() {
    let g = grafo_semente();
    let p = PedidoOtimizacao {
        garagem_id: s("garagem"),
        pontos_a_visitar: vec![s("ponto_A"), s("ponto_Z")],
    };
    let r = otimizar_rota_vizinho_proximo(&p, &g);
    assert_eq!(r.sequencia_pontos, nomes(&["garagem", "ponto_A", "garagem"]));
    assert_eq!(r.distancia_total_km, 10400);
    assert!(!r.completa);
    assert_eq!(r.pontos_nao_visitados, nomes(&["ponto_Z"]));
    let d = ServicoDemanda::new();
    let r = otimizar_rota_por_prioridade(&p, &g, &d);
    assert_eq!(r.sequencia_pontos, nomes(&["garagem", "ponto_A", "garagem"]));
    assert!(!r.completa);
}

#[test]
fn sem_volta_quando_nao_ha_aresta() {
    let mut g = ServicoDistancia::new("t.json", None);
    g.adicionar_distancia(s("garagem"), s("a"), 1000);
    g.adicionar_distancia(s("a"), s("b"), 2000);
    let p = PedidoOtimizacao { garagem_id: s("garagem"), pontos_a_visitar: vec![s("a"), s("b")] };
    let r = otimizar_rota_vizinho_proximo(&p, &g);
    assert_eq!(r.sequencia_pontos, nomes(&["garagem", "a", "b"]));
    assert_eq!(r.distancia_total_km, 3000);
    assert!(r.completa);
}

#[test]
fn empate_escolhe_o_primeiro_do_pedido() {
    let mut g = ServicoDistancia::new("t.json", None);
    g.adicionar_distancia(s("garagem"), s("b"), 1000);
    g.adicionar_distancia(s("garagem"), s("a"), 1000);
    let p = PedidoOtimizacao { garagem_id: s("garagem"), pontos_a_visitar: vec![s("b"), s("a")] };
    let r = otimizar_rota_vizinho_proximo(&p, &g);
    assert_eq!(r.sequencia_pontos, nomes(&["garagem", "b", "garagem"]));
    assert_eq!(r.distancia_total_km, 2000);
    assert!(!r.completa);
}

#[test]
fn pontos_repetidos_visitados_uma_vez() {
    let g = grafo_semente();
    let p = PedidoOtimizacao {
        garagem_id: s("garagem"),
        pontos_a_visitar: vec![s("ponto_A"), s("ponto_A"), s("ponto_B")],
    };
    let r = otimizar_rota_vizinho_proximo(&p, &g);
    assert_eq!(r.sequencia_pontos, nomes(&["garagem", "ponto_A", "ponto_B", "garagem"]));
    assert_eq!(r.distancia_total_km, 16300);
    assert!(r.completa);
}

#[test]
fn sequencia_so_tem_pontos_do_pedido_e_arestas_conhecidas() {
    let mut g = grafo_semente();
    g.adicionar_distancia(s("ponto_C"), s("ponto_D"), 1000);
    let mut d = ServicoDemanda::new();
    d.atualizar_previsao(DadosPrevisao { ponto_id: s("ponto_E"), regiao: s("oeste"), previsao_demanda: 1_000_000 });
    d.atualizar_previsao(DadosPrevisao { ponto_id: s("ponto_D"), regiao: s("oeste"), previsao_demanda: 5 });
    let pedido = PedidoOtimizacao {
        garagem_id: s("garagem"),
        pontos_a_visitar: nomes(&["ponto_A", "ponto_E", "ponto_D", "ponto_B"]),
    };
    let r = otimizar_rota_por_prioridade(&pedido, &g, &d);
    // ponto_E has the largest demand but no edge, so it is never picked
    assert_eq!(r.sequencia_pontos, nomes(&["garagem", "ponto_A", "ponto_B", "garagem"]));
    assert_eq!(r.pontos_nao_visitados, nomes(&["ponto_E", "ponto_D"]));
    let seq = &r.sequencia_pontos;
    let mut soma: u64 = 0;
    for i in 0..seq.len() - 1 {
        soma += g.get_custo(&seq[i], &seq[i + 1]).unwrap() as u64;
    }
    assert_eq!(soma, r.distancia_total_km);
    for p in &seq[1..seq.len() - 1] {
        assert!(pedido.pontos_a_visitar.contains(p));
    }
}
