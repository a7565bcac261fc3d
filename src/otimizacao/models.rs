//! Requests and results of the route optimisation core.
//!
//! Quantities are fixed-point integers: distances and edge costs in
//! thousandths of a kilometre, demand in thousandths of a unit, fuel
//! efficiency in thousandths of a kilometre per litre, and the reported
//! metrics and fuel price in hundredths.
use vstd::prelude::*;

verus! {

/// Distance, fuel and money of one route, each in hundredths, rounded half
/// up.
pub struct MetricasDeCusto {
    pub distancia_total_km: u64,
    pub litros_consumidos: u128,
    pub custo_financeiro_reais: u128,
}

/// One labelled route of a comparison, with its metrics.
pub struct RotaDetalhada {
    pub tipo_otimizacao: String,
    pub sequencia_pontos: Vec<String>,
    /// Whether every requested point was visited.
    pub completa: bool,
    /// The requested points left unvisited, in the request's order.
    pub pontos_nao_visitados: Vec<String>,
    pub metricas: MetricasDeCusto,
}

/// The conversion constants used for the metrics.
pub struct BenchmarkInfo {
    /// Kilometres per litre, in thousandths.
    pub consumo_medio_kml: u32,
    /// Price of a litre, in hundredths.
    pub preco_diesel_reais_litro: u32,
}

/// Both heuristics' routes for one request, and the constants used.
pub struct ComparacaoOtimizacao {
    pub rota_gulosa: RotaDetalhada,
    pub rota_prioridade: RotaDetalhada,
    pub benchmark_usado: BenchmarkInfo,
}

/// A route as a heuristic builds it.
pub struct ResultadoRotaInterna {
    pub sequencia_pontos: Vec<String>,
    /// The sum of the edge costs along the sequence, in thousandths.
    pub distancia_total_km: u64,
    /// Whether every requested point was visited; when not, construction
    /// stopped because no unvisited point could be reached.
    pub completa: bool,
    /// The requested points left unvisited, in the request's order.
    pub pontos_nao_visitados: Vec<String>,
}

/// A routing request: the depot and the points to visit.
pub struct PedidoOtimizacao {
    pub garagem_id: String,
    pub pontos_a_visitar: Vec<String>,
}

/// A new undirected edge of the distance graph.
pub struct PedidoNovaDistancia {
    pub origem: String,
    pub destino: String,
    /// In thousandths of a kilometre.
    pub custo: u32,
}

/// A demand forecast for one point.
pub struct DadosPrevisao {
    pub ponto_id: String,
    pub regiao: String,
    /// In thousandths of a unit.
    pub previsao_demanda: i64,
}

} // verus!
