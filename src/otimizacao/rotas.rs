//! The two route construction heuristics: cost-greedy (nearest neighbour)
//! and demand-priority. Both are one greedy pass from the depot; they differ
//! only in the score that picks the next point.
use vstd::prelude::*;

use crate::otimizacao::models::{PedidoOtimizacao, ResultadoRotaInterna};
use crate::otimizacao::services::{
    custo_em, demanda_em, EntradaSpec, PrevisaoSpec, ServicoDemanda, ServicoDistancia,
};

verus! {

/// The weight of one unit of demand against one unit of distance in the
/// demand-priority score.
pub const PESO_DEMANDA: i128 = 1000;

/// Which score picks the next point.
#[derive(Clone, Copy, PartialEq, Eq, Structural)]
pub enum Criterio {
    /// The smallest edge cost from the current position.
    MenorCusto,
    /// The largest `demand * 1000 - cost`.
    Prioridade,
}

/// The views of a sequence of point ids.
pub open spec fn vista_pontos(v: Seq<String>) -> Seq<Seq<char>> {
    v.map_values(|s: String| s@)
}

/// Point `k` of the request is not visited yet and has a known edge from
/// `atual`.
pub open spec fn candidato(
    g: Seq<EntradaSpec>,
    pontos: Seq<Seq<char>>,
    visitado: Seq<bool>,
    atual: Seq<char>,
    k: int,
) -> bool {
    &&& 0 <= k < pontos.len()
    &&& k < visitado.len()
    &&& !visitado[k]
    &&& custo_em(g, atual, pontos[k]).is_some()
}

/// The demand of `p`, zero when no forecast was given.
pub open spec fn demanda_ou_zero(d: Seq<PrevisaoSpec>, p: Seq<char>) -> int {
    match demanda_em(d, p) {
        Some(x) => x as int,
        None => 0,
    }
}

/// The score of going from `atual` to `p`; the greatest wins.
pub open spec fn pontuacao(
    c: Criterio,
    g: Seq<EntradaSpec>,
    d: Seq<PrevisaoSpec>,
    atual: Seq<char>,
    p: Seq<char>,
) -> int {
    let custo = match custo_em(g, atual, p) {
        Some(x) => x as int,
        None => 0,
    };
    match c {
        Criterio::MenorCusto => -custo,
        Criterio::Prioridade => demanda_ou_zero(d, p) * PESO_DEMANDA - custo,
    }
}

/// Point `k` is the one picked next: a candidate of greatest score, and the
/// first such in the request's order.
pub open spec fn escolhido(
    c: Criterio,
    g: Seq<EntradaSpec>,
    d: Seq<PrevisaoSpec>,
    pontos: Seq<Seq<char>>,
    visitado: Seq<bool>,
    atual: Seq<char>,
    k: int,
) -> bool {
    &&& candidato(g, pontos, visitado, atual, k)
    &&& forall|j: int|
        #[trigger] candidato(g, pontos, visitado, atual, j) ==> pontuacao(
            c,
            g,
            d,
            atual,
            pontos[j],
        ) <= pontuacao(c, g, d, atual, pontos[k]) && (j < k ==> pontuacao(c, g, d, atual, pontos[j])
            < pontuacao(c, g, d, atual, pontos[k]))
}

/// The visited marks after visiting `p`: every entry of the request equal
/// to `p` counts as visited.
pub open spec fn marcar(pontos: Seq<Seq<char>>, visitado: Seq<bool>, p: Seq<char>) -> Seq<bool> {
    Seq::new(visitado.len(), |j: int| visitado[j] || pontos[j] == p)
}

/// The points visited from `atual` on, at most `passos` of them.
pub open spec fn visitas(
    c: Criterio,
    g: Seq<EntradaSpec>,
    d: Seq<PrevisaoSpec>,
    pontos: Seq<Seq<char>>,
    visitado: Seq<bool>,
    atual: Seq<char>,
    passos: nat,
) -> Seq<Seq<char>>
    decreases passos,
{
    if passos == 0 || !(exists|k: int| candidato(g, pontos, visitado, atual, k)) {
        Seq::empty()
    } else {
        let k = choose|k: int| escolhido(c, g, d, pontos, visitado, atual, k);
        seq![pontos[k]] + visitas(
            c,
            g,
            d,
            pontos,
            marcar(pontos, visitado, pontos[k]),
            pontos[k],
            (passos - 1) as nat,
        )
    }
}

/// The points that a heuristic visits, in order, leaving the depot.
pub open spec fn percurso(
    c: Criterio,
    g: Seq<EntradaSpec>,
    d: Seq<PrevisaoSpec>,
    garagem: Seq<char>,
    pontos: Seq<Seq<char>>,
) -> Seq<Seq<char>> {
    visitas(c, g, d, pontos, Seq::new(pontos.len(), |j: int| false), garagem, pontos.len())
}

/// The route: the depot, the points visited, and the depot again when an
/// edge leads back to it from the last position.
pub open spec fn rota(
    c: Criterio,
    g: Seq<EntradaSpec>,
    d: Seq<PrevisaoSpec>,
    garagem: Seq<char>,
    pontos: Seq<Seq<char>>,
) -> Seq<Seq<char>> {
    let v = percurso(c, g, d, garagem, pontos);
    let s = seq![garagem] + v;
    if custo_em(g, s.last(), garagem).is_some() {
        s.push(garagem)
    } else {
        s
    }
}

/// The sum of the edge costs between consecutive points of `s`.
pub open spec fn distancia_rota(g: Seq<EntradaSpec>, s: Seq<Seq<char>>) -> int
    decreases s.len(),
{
    if s.len() < 2 {
        0
    } else {
        distancia_rota(g, s.drop_last()) + match custo_em(g, s[s.len() - 2], s.last()) {
            Some(x) => x as int,
            None => 0,
        }
    }
}

/// Whether every requested point occurs among the points visited.
pub open spec fn visitou_todos(pontos: Seq<Seq<char>>, v: Seq<Seq<char>>) -> bool {
    forall|k: int| 0 <= k < pontos.len() ==> v.contains(#[trigger] pontos[k])
}

/// The requested points, in order, that do not occur among the points
/// visited.
pub open spec fn faltantes(pontos: Seq<Seq<char>>, v: Seq<Seq<char>>) -> Seq<Seq<char>>
    decreases pontos.len(),
{
    if pontos.len() == 0 {
        Seq::empty()
    } else if v.contains(pontos.last()) {
        faltantes(pontos.drop_last(), v)
    } else {
        faltantes(pontos.drop_last(), v).push(pontos.last())
    }
}

/// The number of entries not yet visited.
pub open spec fn livres(v: Seq<bool>) -> nat
    decreases v.len(),
{
    if v.len() == 0 {
        0
    } else {
        livres(v.drop_last()) + if v.last() {
            0nat
        } else {
            1nat
        }
    }
}

/// Marking more entries leaves fewer free; marking one more leaves strictly
/// fewer.
pub proof fn lemma_livres(a: Seq<bool>, b: Seq<bool>, k: int)
    requires
        a.len() == b.len(),
        forall|i: int| 0 <= i < a.len() && #[trigger] a[i] ==> b[i],
        0 <= k < a.len(),
        !a[k],
        b[k],
    ensures
        livres(b) < livres(a),
    decreases a.len(),
{
    if k < a.len() - 1 {
        lemma_livres(a.drop_last(), b.drop_last(), k);
    } else {
        lemma_livres_monotono(a.drop_last(), b.drop_last());
    }
}

pub proof fn lemma_livres_todos(a: Seq<bool>)
    ensures
        livres(a) <= a.len(),
    decreases a.len(),
{
    if a.len() > 0 {
        lemma_livres_todos(a.drop_last());
    }
}

pub proof fn lemma_livres_monotono(a: Seq<bool>, b: Seq<bool>)
    requires
        a.len() == b.len(),
        forall|i: int| 0 <= i < a.len() && #[trigger] a[i] ==> b[i],
    ensures
        livres(b) <= livres(a),
    decreases a.len(),
{
    if a.len() > 0 {
        lemma_livres_monotono(a.drop_last(), b.drop_last());
    }
}

/// At most one point is picked.
pub proof fn lemma_escolhido_unico(
    c: Criterio,
    g: Seq<EntradaSpec>,
    d: Seq<PrevisaoSpec>,
    pontos: Seq<Seq<char>>,
    visitado: Seq<bool>,
    atual: Seq<char>,
    k1: int,
    k2: int,
)
    requires
        escolhido(c, g, d, pontos, visitado, atual, k1),
        escolhido(c, g, d, pontos, visitado, atual, k2),
    ensures
        k1 == k2,
{
    assert(candidato(g, pontos, visitado, atual, k1));
    assert(candidato(g, pontos, visitado, atual, k2));
}

/// The point picked next from `atual`, with the cost of the edge to it;
/// `None` when no unvisited point can be reached.
fn escolher(
    criterio: Criterio,
    dist: &ServicoDistancia,
    dem: &ServicoDemanda,
    pontos: &Vec<String>,
    visitado: &Vec<bool>,
    atual: &String,
) -> (r: Option<(usize, u32)>)
    requires
        visitado@.len() == pontos@.len(),
    ensures
        match r {
            Some((b, c)) => escolhido(
                criterio,
                dist@,
                dem@,
                vista_pontos(pontos@),
                visitado@,
                atual@,
                b as int,
            ) && custo_em(dist@, atual@, pontos@[b as int]@) == Some(c),
            None => forall|j: int|
                !candidato(dist@, vista_pontos(pontos@), visitado@, atual@, j),
        },
{
    let ghost ps = vista_pontos(pontos@);
    let ghost (g, d) = (dist@, dem@);
    let mut melhor: Option<(usize, u32)> = None;
    let mut melhor_pont: i128 = 0;
    let mut k: usize = 0;
    while k < pontos.len()
        invariant
            k <= pontos@.len(),
            visitado@.len() == pontos@.len(),
            ps == vista_pontos(pontos@),
            g == dist@,
            d == dem@,
            match melhor {
                None => forall|j: int| 0 <= j < k ==> !candidato(g, ps, visitado@, atual@, j),
                Some((b, c)) => {
                    &&& b < k
                    &&& candidato(g, ps, visitado@, atual@, b as int)
                    &&& custo_em(g, atual@, ps[b as int]) == Some(c)
                    &&& melhor_pont == pontuacao(criterio, g, d, atual@, ps[b as int])
                    &&& forall|j: int|
                        0 <= j < k && #[trigger] candidato(g, ps, visitado@, atual@, j) ==> pontuacao(
                            criterio,
                            g,
                            d,
                            atual@,
                            ps[j],
                        ) <= melhor_pont && (j < b ==> pontuacao(criterio, g, d, atual@, ps[j])
                            < melhor_pont)
                },
            },
        decreases pontos@.len() - k,
    {
        if !visitado[k] {
            match dist.custo(atual, &pontos[k]) {
                Some(c) => {
                    let p: i128 = match criterio {
                        Criterio::MenorCusto => -(c as i128),
                        Criterio::Prioridade => {
                            let dm: i64 = match dem.demanda(&pontos[k]) {
                                Some(x) => x,
                                None => 0,
                            };
                            (dm as i128) * PESO_DEMANDA - (c as i128)
                        },
                    };
                    assert(p == pontuacao(criterio, g, d, atual@, ps[k as int]));
                    let melhora = match melhor {
                        None => true,
                        Some(_) => p > melhor_pont,
                    };
                    if melhora {
                        melhor = Some((k, c));
                        melhor_pont = p;
                    }
                },
                None => {},
            }
        }
        k = k + 1;
    }
    melhor
}

/// Marks as visited every entry of the request equal to `p`.
fn marcar_visitados(visitado: &mut Vec<bool>, pontos: &Vec<String>, p: &String)
    requires
        old(visitado)@.len() == pontos@.len(),
    ensures
        final(visitado)@ == marcar(vista_pontos(pontos@), old(visitado)@, p@),
{
    let ghost antes = visitado@;
    let mut j: usize = 0;
    while j < pontos.len()
        invariant
            j <= pontos@.len(),
            visitado@.len() == pontos@.len(),
            antes.len() == pontos@.len(),
            forall|i: int|
                0 <= i < pontos@.len() ==> #[trigger] visitado@[i] == if i < j {
                    antes[i] || pontos@[i]@ == p@
                } else {
                    antes[i]
                },
        decreases pontos@.len() - j,
    {
        if pontos[j] == *p {
            visitado.set(j, true);
        }
        j = j + 1;
    }
    assert(visitado@ =~= marcar(vista_pontos(pontos@), antes, p@));
}

/// Whether every mark is set.
fn todos_marcados(visitado: &Vec<bool>) -> (r: bool)
    ensures
        r == (forall|i: int| 0 <= i < visitado@.len() ==> #[trigger] visitado@[i]),
{
    let mut i: usize = 0;
    while i < visitado.len()
        invariant
            i <= visitado@.len(),
            forall|j: int| 0 <= j < i ==> #[trigger] visitado@[j],
        decreases visitado@.len() - i,
    {
        if !visitado[i] {
            return false;
        }
        i = i + 1;
    }
    true
}

/// Builds the route of the heuristic `criterio`: from the depot, the picked
/// point is visited while there is one, then the depot is appended when an
/// edge leads back to it.
///
/// A route has at most one edge more than the request has points, each of
/// at most `u32::MAX`; the bound on the number of points keeps the total
/// within a `u64`.
pub fn construir_rota(
    pedido: &PedidoOtimizacao,
    dist: &ServicoDistancia,
    dem: &ServicoDemanda,
    criterio: Criterio,
) -> (r: ResultadoRotaInterna)
    requires
        pedido.pontos_a_visitar@.len() <= u32::MAX,
    ensures
        vista_pontos(r.sequencia_pontos@) == rota(
            criterio,
            dist@,
            dem@,
            pedido.garagem_id@,
            vista_pontos(pedido.pontos_a_visitar@),
        ),
        r.distancia_total_km == distancia_rota(dist@, vista_pontos(r.sequencia_pontos@)),
        r.completa == visitou_todos(
            vista_pontos(pedido.pontos_a_visitar@),
            percurso(criterio, dist@, dem@, pedido.garagem_id@, vista_pontos(pedido.pontos_a_visitar@)),
        ),
        vista_pontos(r.pontos_nao_visitados@) == faltantes(
            vista_pontos(pedido.pontos_a_visitar@),
            percurso(criterio, dist@, dem@, pedido.garagem_id@, vista_pontos(pedido.pontos_a_visitar@)),
        ),
{
    let pontos = &pedido.pontos_a_visitar;
    let n = pontos.len();
    let ghost ps = vista_pontos(pontos@);
    let ghost (g, d) = (dist@, dem@);
    let ghost garagem = pedido.garagem_id@;
    let ghost trajeto = percurso(criterio, g, d, garagem, ps);
    let mut visitado: Vec<bool> = Vec::new();
    let mut i: usize = 0;
    while i < n
        invariant
            i <= n,
            n == pontos@.len(),
            visitado@ =~= Seq::new(i as nat, |j: int| false),
        decreases n - i,
    {
        visitado.push(false);
        i = i + 1;
    }
    let mut sequencia: Vec<String> = Vec::new();
    sequencia.push(pedido.garagem_id.clone());
    let mut atual: String = pedido.garagem_id.clone();
    let mut total: u64 = 0;
    proof {
        lemma_livres_monotono(visitado@, visitado@);
        assert(vista_pontos(sequencia@).subrange(1, 1) =~= Seq::<Seq<char>>::empty());
        assert(trajeto =~= vista_pontos(sequencia@).subrange(1, 1) + visitas(
            criterio,
            g,
            d,
            ps,
            visitado@,
            atual@,
            n as nat,
        ));
        assert(livres(visitado@) <= n) by {
            lemma_livres_todos(visitado@);
        }
    }
    loop
        invariant
            n == pontos@.len(),
            n <= u32::MAX,
            ps == vista_pontos(pontos@),
            g == dist@,
            d == dem@,
            garagem == pedido.garagem_id@,
            trajeto == percurso(criterio, g, d, garagem, ps),
            visitado@.len() == n,
            sequencia@.len() >= 1,
            vista_pontos(sequencia@)[0] == garagem,
            atual@ == vista_pontos(sequencia@).last(),
            livres(visitado@) + (sequencia@.len() - 1) <= n,
            trajeto == vista_pontos(sequencia@).subrange(1, sequencia@.len() as int) + visitas(
                criterio,
                g,
                d,
                ps,
                visitado@,
                atual@,
                (n - (sequencia@.len() - 1)) as nat,
            ),
            forall|k: int|
                0 <= k < n ==> (#[trigger] visitado@[k] <==> vista_pontos(sequencia@).subrange(
                    1,
                    sequencia@.len() as int,
                ).contains(ps[k])),
            total == distancia_rota(g, vista_pontos(sequencia@)),
            total <= (sequencia@.len() - 1) * u32::MAX,
        ensures
            trajeto == vista_pontos(sequencia@).subrange(1, sequencia@.len() as int),
        decreases n - (sequencia@.len() - 1),
    {
        let ghost s0 = vista_pontos(sequencia@);
        let ghost v0 = visitado@;
        let ghost t = sequencia@.len() - 1;
        match escolher(criterio, dist, dem, pontos, &visitado, &atual) {
            None => {
                assert(visitas(criterio, g, d, ps, visitado@, atual@, (n - t) as nat)
                    =~= Seq::<Seq<char>>::empty());
                break ;
            },
            Some((b, c)) => {
                let ghost p = ps[b as int];
                let ghost v1 = marcar(ps, v0, p);
                proof {
                    lemma_livres(v0, v1, b as int);
                    assert(t < n);
                    let k = choose|k: int| escolhido(criterio, g, d, ps, v0, atual@, k);
                    lemma_escolhido_unico(criterio, g, d, ps, v0, atual@, k, b as int);
                    assert(visitas(criterio, g, d, ps, v0, atual@, (n - t) as nat) == seq![p]
                        + visitas(criterio, g, d, ps, v1, p, (n - t - 1) as nat));
                    assert(total + c <= (t + 1) * u32::MAX) by (nonlinear_arith)
                        requires
                            total <= t * u32::MAX,
                            c <= u32::MAX,
                    ;
                }
                let prox = pontos[b].clone();
                marcar_visitados(&mut visitado, pontos, &prox);
                total = total + c as u64;
                sequencia.push(prox.clone());
                atual = prox;
                proof {
                    let s1 = vista_pontos(sequencia@);
                    assert(s1 =~= s0.push(p));
                    assert(s1.drop_last() =~= s0);
                    assert(s1.subrange(1, s1.len() as int) =~= s0.subrange(1, s0.len() as int).push(
                        p,
                    ));
                    assert(s1.subrange(1, s1.len() as int) + visitas(
                        criterio,
                        g,
                        d,
                        ps,
                        v1,
                        p,
                        (n - t - 1) as nat,
                    ) =~= s0.subrange(1, s0.len() as int) + (seq![p] + visitas(
                        criterio,
                        g,
                        d,
                        ps,
                        v1,
                        p,
                        (n - t - 1) as nat,
                    )));
                    let pre0 = s0.subrange(1, s0.len() as int);
                    let pre1 = s1.subrange(1, s1.len() as int);
                    assert forall|k: int| 0 <= k < n implies (#[trigger] visitado@[k]
                        <==> pre1.contains(ps[k])) by {
                        if pre0.contains(ps[k]) {
                            let i = choose|i: int| 0 <= i < pre0.len() && pre0[i] == ps[k];
                            assert(pre1[i] == ps[k]);
                        }
                        if ps[k] == p {
                            assert(pre1[pre1.len() - 1] == ps[k]);
                        }
                        if pre1.contains(ps[k]) {
                            let i = choose|i: int| 0 <= i < pre1.len() && pre1[i] == ps[k];
                            if i < pre0.len() {
                                assert(pre0[i] == ps[k]);
                            }
                        }
                    }
                }
            },
        }
    }
    let ghost s0 = vista_pontos(sequencia@);
    let ghost t = sequencia@.len() - 1;
    proof {
        assert(s0 =~= seq![garagem] + s0.subrange(1, s0.len() as int));
    }
    match dist.custo(&atual, &pedido.garagem_id) {
        Some(c) => {
            proof {
                assert(total + c <= (t + 1) * u32::MAX) by (nonlinear_arith)
                    requires
                        total <= t * u32::MAX,
                        c <= u32::MAX,
                ;
                assert((t + 1) * u32::MAX <= u64::MAX) by (nonlinear_arith)
                    requires
                        t <= u32::MAX,
                ;
            }
            total = total + c as u64;
            sequencia.push(pedido.garagem_id.clone());
            proof {
                let s1 = vista_pontos(sequencia@);
                assert(s1 =~= s0.push(garagem));
                assert(s1.drop_last() =~= s0);
            }
        },
        None => {},
    }
    let completa = todos_marcados(&visitado);
    let mut pontos_nao_visitados: Vec<String> = Vec::new();
    let mut k: usize = 0;
    proof {
        assert(s0.subrange(1, s0.len() as int) =~= trajeto);
        assert(ps.subrange(0, 0) =~= Seq::<Seq<char>>::empty());
    }
    while k < n
        invariant
            k <= n,
            n == pontos@.len(),
            ps == vista_pontos(pontos@),
            visitado@.len() == n,
            forall|j: int| 0 <= j < n ==> (#[trigger] visitado@[j] <==> trajeto.contains(ps[j])),
            vista_pontos(pontos_nao_visitados@) == faltantes(ps.subrange(0, k as int), trajeto),
        decreases n - k,
    {
        proof {
            assert(ps.subrange(0, k + 1).drop_last() =~= ps.subrange(0, k as int));
        }
        if !visitado[k] {
            pontos_nao_visitados.push(pontos[k].clone());
            assert(vista_pontos(pontos_nao_visitados@) =~= faltantes(ps.subrange(0, k + 1), trajeto));
        }
        k = k + 1;
    }
    proof {
        assert(ps.subrange(0, n as int) =~= ps);
        let pre = s0.subrange(1, s0.len() as int);
        assert(pre =~= trajeto);
        if completa {
            assert forall|k: int| 0 <= k < n implies trajeto.contains(#[trigger] ps[k]) by {
                assert(visitado@[k]);
            }
        } else {
            let k = choose|k: int| 0 <= k < n && !#[trigger] visitado@[k];
            assert(!trajeto.contains(ps[k]));
        }
    }
    ResultadoRotaInterna {
        sequencia_pontos: sequencia,
        distancia_total_km: total,
        completa,
        pontos_nao_visitados,
    }
}

/// Cost-greedy: from the current position, the unvisited point of smallest
/// known edge cost comes next (the first in the request's order among equal
/// costs).
pub fn otimizar_rota_vizinho_proximo(
    pedido: &PedidoOtimizacao,
    servico_distancia: &ServicoDistancia,
) -> (r: ResultadoRotaInterna)
    requires
        pedido.pontos_a_visitar@.len() <= u32::MAX,
    ensures
        vista_pontos(r.sequencia_pontos@) == rota(
            Criterio::MenorCusto,
            servico_distancia@,
            Seq::empty(),
            pedido.garagem_id@,
            vista_pontos(pedido.pontos_a_visitar@),
        ),
        r.distancia_total_km == distancia_rota(
            servico_distancia@,
            vista_pontos(r.sequencia_pontos@),
        ),
        r.completa == visitou_todos(
            vista_pontos(pedido.pontos_a_visitar@),
            percurso(
                Criterio::MenorCusto,
                servico_distancia@,
                Seq::empty(),
                pedido.garagem_id@,
                vista_pontos(pedido.pontos_a_visitar@),
            ),
        ),
        vista_pontos(r.pontos_nao_visitados@) == faltantes(
            vista_pontos(pedido.pontos_a_visitar@),
            percurso(
                Criterio::MenorCusto,
                servico_distancia@,
                Seq::empty(),
                pedido.garagem_id@,
                vista_pontos(pedido.pontos_a_visitar@),
            ),
        ),
{
    let sem_demanda = ServicoDemanda::new();
    construir_rota(pedido, servico_distancia, &sem_demanda, Criterio::MenorCusto)
}

/// Demand-priority: from the current position, the reachable unvisited
/// point of greatest `demand * 1000 - cost` comes next (the first in the
/// request's order among equal scores); points with no known edge are not
/// considered.
pub fn otimizar_rota_por_prioridade(
    pedido: &PedidoOtimizacao,
    servico_distancia: &ServicoDistancia,
    servico_demanda: &ServicoDemanda,
) -> (r: ResultadoRotaInterna)
    requires
        pedido.pontos_a_visitar@.len() <= u32::MAX,
    ensures
        vista_pontos(r.sequencia_pontos@) == rota(
            Criterio::Prioridade,
            servico_distancia@,
            servico_demanda@,
            pedido.garagem_id@,
            vista_pontos(pedido.pontos_a_visitar@),
        ),
        r.distancia_total_km == distancia_rota(
            servico_distancia@,
            vista_pontos(r.sequencia_pontos@),
        ),
        r.completa == visitou_todos(
            vista_pontos(pedido.pontos_a_visitar@),
            percurso(
                Criterio::Prioridade,
                servico_distancia@,
                servico_demanda@,
                pedido.garagem_id@,
                vista_pontos(pedido.pontos_a_visitar@),
            ),
        ),
        vista_pontos(r.pontos_nao_visitados@) == faltantes(
            vista_pontos(pedido.pontos_a_visitar@),
            percurso(
                Criterio::Prioridade,
                servico_distancia@,
                servico_demanda@,
                pedido.garagem_id@,
                vista_pontos(pedido.pontos_a_visitar@),
            ),
        ),
{
    construir_rota(pedido, servico_distancia, servico_demanda, Criterio::Prioridade)
}

/// Among the candidates below `m`, one is picked as `escolhido` picks among
/// all of them.
proof fn lemma_melhor_ate(
    c: Criterio,
    g: Seq<EntradaSpec>,
    d: Seq<PrevisaoSpec>,
    pontos: Seq<Seq<char>>,
    visitado: Seq<bool>,
    atual: Seq<char>,
    m: int,
) -> (k: int)
    requires
        0 <= m,
        exists|j: int| 0 <= j < m && candidato(g, pontos, visitado, atual, j),
    ensures
        0 <= k < m,
        candidato(g, pontos, visitado, atual, k),
        forall|j: int|
            0 <= j < m && #[trigger] candidato(g, pontos, visitado, atual, j) ==> pontuacao(
                c,
                g,
                d,
                atual,
                pontos[j],
            ) <= pontuacao(c, g, d, atual, pontos[k]) && (j < k ==> pontuacao(
                c,
                g,
                d,
                atual,
                pontos[j],
            ) < pontuacao(c, g, d, atual, pontos[k])),
    decreases m,
{
    let pm = pontuacao(c, g, d, atual, pontos[m - 1]);
    if exists|j: int| 0 <= j < m - 1 && candidato(g, pontos, visitado, atual, j) {
        let k = lemma_melhor_ate(c, g, d, pontos, visitado, atual, m - 1);
        if candidato(g, pontos, visitado, atual, m - 1) && pm > pontuacao(
            c,
            g,
            d,
            atual,
            pontos[k],
        ) {
            m - 1
        } else {
            k
        }
    } else {
        m - 1
    }
}

/// When some point can be reached, one is picked.
pub proof fn lemma_existe_escolhido(
    c: Criterio,
    g: Seq<EntradaSpec>,
    d: Seq<PrevisaoSpec>,
    pontos: Seq<Seq<char>>,
    visitado: Seq<bool>,
    atual: Seq<char>,
)
    requires
        exists|j: int| candidato(g, pontos, visitado, atual, j),
    ensures
        exists|k: int| escolhido(c, g, d, pontos, visitado, atual, k),
{
    let k = lemma_melhor_ate(c, g, d, pontos, visitado, atual, pontos.len() as int);
    assert(escolhido(c, g, d, pontos, visitado, atual, k));
}

/// Each point visited is one of the request, and an edge leads to it from
/// the position before it.
pub proof fn lemma_visitas(
    c: Criterio,
    g: Seq<EntradaSpec>,
    d: Seq<PrevisaoSpec>,
    pontos: Seq<Seq<char>>,
    visitado: Seq<bool>,
    atual: Seq<char>,
    passos: nat,
)
    ensures
        forall|i: int|
            0 <= i < visitas(c, g, d, pontos, visitado, atual, passos).len() ==> pontos.contains(
                #[trigger] visitas(c, g, d, pontos, visitado, atual, passos)[i],
            ),
        visitas(c, g, d, pontos, visitado, atual, passos).len() > 0 ==> custo_em(
            g,
            atual,
            visitas(c, g, d, pontos, visitado, atual, passos)[0],
        ).is_some(),
        forall|i: int|
            0 <= i < visitas(c, g, d, pontos, visitado, atual, passos).len() - 1 ==> custo_em(
                g,
                #[trigger] visitas(c, g, d, pontos, visitado, atual, passos)[i],
                visitas(c, g, d, pontos, visitado, atual, passos)[i + 1],
            ).is_some(),
    decreases passos,
{
    let v = visitas(c, g, d, pontos, visitado, atual, passos);
    if passos > 0 && exists|k: int| candidato(g, pontos, visitado, atual, k) {
        lemma_existe_escolhido(c, g, d, pontos, visitado, atual);
        let k = choose|k: int| escolhido(c, g, d, pontos, visitado, atual, k);
        let p = pontos[k];
        let v1 = marcar(pontos, visitado, p);
        let w = visitas(c, g, d, pontos, v1, p, (passos - 1) as nat);
        lemma_visitas(c, g, d, pontos, v1, p, (passos - 1) as nat);
        assert(v == seq![p] + w);
        assert(pontos.contains(p)) by {
            assert(pontos[k] == p);
        }
        assert forall|i: int| 0 <= i < v.len() implies pontos.contains(#[trigger] v[i]) by {
            if i > 0 {
                assert(v[i] == w[i - 1]);
            }
        }
        assert forall|i: int| 0 <= i < v.len() - 1 implies custo_em(
            g,
            #[trigger] v[i],
            v[i + 1],
        ).is_some() by {
            if i > 0 {
                assert(v[i] == w[i - 1] && v[i + 1] == w[i]);
            }
        }
    }
}

/// Sequence validity: a route starts at the depot; every later point is one
/// of the request, but for a last point that is the depot itself.
pub proof fn lei_sequencia_valida(
    c: Criterio,
    g: Seq<EntradaSpec>,
    d: Seq<PrevisaoSpec>,
    garagem: Seq<char>,
    pontos: Seq<Seq<char>>,
)
    ensures
        rota(c, g, d, garagem, pontos).len() >= 1,
        rota(c, g, d, garagem, pontos)[0] == garagem,
        forall|i: int|
            1 <= i < rota(c, g, d, garagem, pontos).len() ==> pontos.contains(
                #[trigger] rota(c, g, d, garagem, pontos)[i],
            ) || (i == rota(c, g, d, garagem, pontos).len() - 1 && rota(
                c,
                g,
                d,
                garagem,
                pontos,
            )[i] == garagem),
{
    let v = percurso(c, g, d, garagem, pontos);
    let s = rota(c, g, d, garagem, pontos);
    lemma_visitas(c, g, d, pontos, Seq::new(pontos.len(), |j: int| false), garagem, pontos.len());
    assert forall|i: int| 1 <= i < s.len() implies pontos.contains(#[trigger] s[i]) || (i == s.len()
        - 1 && s[i] == garagem) by {
        if i <= v.len() {
            assert(s[i] == v[i - 1]);
        }
    }
}

/// Reachability: every step of a route, the return to the depot included,
/// follows a known edge.
pub proof fn lei_alcancabilidade(
    c: Criterio,
    g: Seq<EntradaSpec>,
    d: Seq<PrevisaoSpec>,
    garagem: Seq<char>,
    pontos: Seq<Seq<char>>,
)
    ensures
        forall|i: int|
            0 <= i < rota(c, g, d, garagem, pontos).len() - 1 ==> custo_em(
                g,
                #[trigger] rota(c, g, d, garagem, pontos)[i],
                rota(c, g, d, garagem, pontos)[i + 1],
            ).is_some(),
{
    let v = percurso(c, g, d, garagem, pontos);
    let s0 = seq![garagem] + v;
    let s = rota(c, g, d, garagem, pontos);
    lemma_visitas(c, g, d, pontos, Seq::new(pontos.len(), |j: int| false), garagem, pontos.len());
    assert forall|i: int| 0 <= i < s.len() - 1 implies custo_em(g, #[trigger] s[i], s[i + 1]).is_some() by {
        if i == 0 && v.len() > 0 {
            assert(s[0] == garagem && s[1] == v[0]);
        } else if 1 <= i && i < v.len() {
            assert(s[i] == v[i - 1] && s[i + 1] == v[i]);
        } else {
            assert(s[i] == s0.last() && s[i + 1] == garagem);
        }
    }
}

} // verus!
