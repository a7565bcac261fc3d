//! The route optimisation core: both heuristics run on one request, and
//! each route's distance is turned into fuel and money.
use vstd::prelude::*;

pub mod models;
pub mod rotas;
pub mod services;

use crate::otimizacao::models::{
    BenchmarkInfo, ComparacaoOtimizacao, MetricasDeCusto, PedidoOtimizacao, RotaDetalhada,
    ResultadoRotaInterna,
};
use crate::otimizacao::rotas::{
    distancia_rota, faltantes, otimizar_rota_por_prioridade, otimizar_rota_vizinho_proximo, percurso, rota,
    vista_pontos, visitou_todos, Criterio,
};
use crate::otimizacao::services::{ServicoDemanda, ServicoDistancia};

verus! {

/// Fuel efficiency of the truck: 2 km per litre, in thousandths.
pub const CONSUMO_CAMINHAO_KML: u32 = 2000;

/// Price of a litre of diesel: 6.00, in hundredths.
pub const PRECO_DIESEL_REAIS: u32 = 600;

/// `n / m` rounded to the nearest integer, halves up (for `n >= 0`, `m > 0`).
pub open spec fn dividir_arredondado(n: int, m: int) -> int {
    (2 * n + m) / (2 * m)
}

/// The metrics of a route of `d` thousandths of a km under `b`: distance,
/// litres (`d / E`) and cost (`litres * P`), each in hundredths.
pub open spec fn metricas_de(m: MetricasDeCusto, d: int, b: BenchmarkInfo) -> bool {
    &&& m.distancia_total_km == dividir_arredondado(d, 10)
    &&& m.litros_consumidos == dividir_arredondado(d * 100, b.consumo_medio_kml as int)
    &&& m.custo_financeiro_reais == dividir_arredondado(
        d * b.preco_diesel_reais_litro,
        b.consumo_medio_kml as int,
    )
}

/// The constants the comparison uses.
pub fn benchmark_padrao() -> (r: BenchmarkInfo)
    ensures
        r.consumo_medio_kml == CONSUMO_CAMINHAO_KML,
        r.preco_diesel_reais_litro == PRECO_DIESEL_REAIS,
{
    BenchmarkInfo {
        consumo_medio_kml: CONSUMO_CAMINHAO_KML,
        preco_diesel_reais_litro: PRECO_DIESEL_REAIS,
    }
}

fn dividir(n: u128, m: u128) -> (r: u128)
    requires
        0 < m <= u32::MAX,
        2 * n + m <= u128::MAX,
    ensures
        r == dividir_arredondado(n as int, m as int),
{
    (2 * n + m) / (2 * m)
}

/// Fuel and money of a route of `distancia_km` thousandths of a km: litres
/// are distance over efficiency, cost is litres times price; the three are
/// reported in hundredths, rounded half up.
pub fn calcular_metricas_consumo(distancia_km: u64, benchmark: &BenchmarkInfo) -> (r:
    MetricasDeCusto)
    requires
        benchmark.consumo_medio_kml > 0,
    ensures
        metricas_de(r, distancia_km as int, *benchmark),
{
    let d = distancia_km as u128;
    let e = benchmark.consumo_medio_kml as u128;
    let p = benchmark.preco_diesel_reais_litro as u128;
    proof {
        assert(d * p <= u64::MAX * u32::MAX) by (nonlinear_arith)
            requires
                d <= u64::MAX,
                p <= u32::MAX,
        ;
    }
    let km = dividir(d, 10);
    proof {
        assert(km <= d) by (nonlinear_arith)
            requires
                km == (2 * d + 10) / 20,
        ;
    }
    let litros = dividir(d * 100, e);
    let custo = dividir(d * p, e);
    MetricasDeCusto {
        distancia_total_km: km as u64,
        litros_consumidos: litros,
        custo_financeiro_reais: custo,
    }
}

/// The labelled route of a heuristic's result, with its metrics.
fn detalhar(tipo: &str, interna: ResultadoRotaInterna, benchmark: &BenchmarkInfo) -> (r:
    RotaDetalhada)
    requires
        benchmark.consumo_medio_kml > 0,
    ensures
        r.tipo_otimizacao@ == tipo@,
        r.sequencia_pontos@ == interna.sequencia_pontos@,
        r.completa == interna.completa,
        r.pontos_nao_visitados@ == interna.pontos_nao_visitados@,
        metricas_de(r.metricas, interna.distancia_total_km as int, *benchmark),
{
    let metricas = calcular_metricas_consumo(interna.distancia_total_km, benchmark);
    RotaDetalhada {
        tipo_otimizacao: tipo.to_owned(),
        sequencia_pontos: interna.sequencia_pontos,
        completa: interna.completa,
        pontos_nao_visitados: interna.pontos_nao_visitados,
        metricas,
    }
}

/// Runs both heuristics on the request against the same graph and
/// forecast, and reports each route with its metrics and the constants
/// used.
pub fn executar_otimizacao_comparativa(
    servico_distancia: &ServicoDistancia,
    servico_demanda: &ServicoDemanda,
    pedido: &PedidoOtimizacao,
) -> (r: ComparacaoOtimizacao)
    requires
        pedido.pontos_a_visitar@.len() <= u32::MAX,
    ensures
        r.benchmark_usado.consumo_medio_kml == CONSUMO_CAMINHAO_KML,
        r.benchmark_usado.preco_diesel_reais_litro == PRECO_DIESEL_REAIS,
        r.rota_gulosa.tipo_otimizacao@ == "Gulosa (Menor Custo)"@,
        vista_pontos(r.rota_gulosa.sequencia_pontos@) == rota(
            Criterio::MenorCusto,
            servico_distancia@,
            Seq::empty(),
            pedido.garagem_id@,
            vista_pontos(pedido.pontos_a_visitar@),
        ),
        r.rota_gulosa.completa == visitou_todos(
            vista_pontos(pedido.pontos_a_visitar@),
            percurso(
                Criterio::MenorCusto,
                servico_distancia@,
                Seq::empty(),
                pedido.garagem_id@,
                vista_pontos(pedido.pontos_a_visitar@),
            ),
        ),
        vista_pontos(r.rota_gulosa.pontos_nao_visitados@) == faltantes(
            vista_pontos(pedido.pontos_a_visitar@),
            percurso(
                Criterio::MenorCusto,
                servico_distancia@,
                Seq::empty(),
                pedido.garagem_id@,
                vista_pontos(pedido.pontos_a_visitar@),
            ),
        ),
        metricas_de(
            r.rota_gulosa.metricas,
            distancia_rota(servico_distancia@, vista_pontos(r.rota_gulosa.sequencia_pontos@)),
            r.benchmark_usado,
        ),
        r.rota_prioridade.tipo_otimizacao@ == "Prioridade (Demanda Urgente)"@,
        vista_pontos(r.rota_prioridade.sequencia_pontos@) == rota(
            Criterio::Prioridade,
            servico_distancia@,
            servico_demanda@,
            pedido.garagem_id@,
            vista_pontos(pedido.pontos_a_visitar@),
        ),
        r.rota_prioridade.completa == visitou_todos(
            vista_pontos(pedido.pontos_a_visitar@),
            percurso(
                Criterio::Prioridade,
                servico_distancia@,
                servico_demanda@,
                pedido.garagem_id@,
                vista_pontos(pedido.pontos_a_visitar@),
            ),
        ),
        vista_pontos(r.rota_prioridade.pontos_nao_visitados@) == faltantes(
            vista_pontos(pedido.pontos_a_visitar@),
            percurso(
                Criterio::Prioridade,
                servico_distancia@,
                servico_demanda@,
                pedido.garagem_id@,
                vista_pontos(pedido.pontos_a_visitar@),
            ),
        ),
        metricas_de(
            r.rota_prioridade.metricas,
            distancia_rota(servico_distancia@, vista_pontos(r.rota_prioridade.sequencia_pontos@)),
            r.benchmark_usado,
        ),
{
    let benchmark = benchmark_padrao();
    let gulosa = otimizar_rota_vizinho_proximo(pedido, servico_distancia);
    let prioridade = otimizar_rota_por_prioridade(pedido, servico_distancia, servico_demanda);
    let rota_gulosa = detalhar("Gulosa (Menor Custo)", gulosa, &benchmark);
    let rota_prioridade = detalhar("Prioridade (Demanda Urgente)", prioridade, &benchmark);
    ComparacaoOtimizacao { rota_gulosa, rota_prioridade, benchmark_usado: benchmark }
}

} // verus!
