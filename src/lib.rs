//! Recyclable-waste collection: access rules for users, and the route
//! optimisation core (distance graph, demand forecast, the two routing
//! heuristics and the fuel-cost benchmark).
use vstd::prelude::*;

pub mod api;
pub mod auth;
pub mod otimizacao;

pub use crate::auth::{PerfilParseError, PerfilUsuario, Usuario};
pub use crate::otimizacao::models::{
    BenchmarkInfo, ComparacaoOtimizacao, DadosPrevisao, MetricasDeCusto, PedidoNovaDistancia,
    PedidoOtimizacao, ResultadoRotaInterna, RotaDetalhada,
};
pub use crate::otimizacao::rotas::{
    otimizar_rota_por_prioridade, otimizar_rota_vizinho_proximo, Criterio,
};
pub use crate::otimizacao::services::{Aresta, ServicoDemanda, ServicoDistancia};
pub use crate::otimizacao::{
    benchmark_padrao, calcular_metricas_consumo, executar_otimizacao_comparativa,
};

verus! {

} // verus!
