//! Request and response bodies.
use vstd::prelude::*;

use crate::auth::{nome_perfil, Usuario};
use crate::otimizacao::models::{DadosPrevisao, PedidoNovaDistancia, PedidoOtimizacao};

verus! {

pub struct LoginRequest {
    pub nome: String,
    pub senha: String,
}

pub struct LoginResponse {
    pub usuario: UsuarioResponse,
    pub mensagem: String,
}

pub struct AuthCredentials {
    pub nome: String,
    pub senha: String,
}

/// A user as the API shows it: the profile as its stored text.
pub struct UsuarioResponse {
    pub id: u32,
    pub nome: String,
    pub perfil: String,
}

impl UsuarioResponse {
    pub fn de_usuario(usuario: &Usuario) -> (r: UsuarioResponse)
        ensures
            r.id == usuario.id,
            r.nome@ == usuario.nome@,
            r.perfil@ == nome_perfil(usuario.perfil),
    {
        UsuarioResponse {
            id: usuario.id,
            nome: usuario.nome.clone(),
            perfil: usuario.perfil.as_str().to_owned(),
        }
    }
}

impl<'a> From<&'a Usuario> for UsuarioResponse {
    fn from(usuario: &'a Usuario) -> UsuarioResponse {
        UsuarioResponse::de_usuario(usuario)
    }
}

impl<'a> vstd::std_specs::convert::FromSpecImpl<&'a Usuario> for UsuarioResponse {
    open spec fn obeys_from_spec() -> bool {
        false
    }

    open spec fn from_spec(v: &'a Usuario) -> UsuarioResponse {
        arbitrary()
    }
}

pub struct CriarUsuarioRequest {
    pub nome: String,
    pub senha: String,
    pub perfil: String,
}

pub struct CriarUsuarioRequestComAuth {
    pub nome: String,
    pub senha: String,
    pub novo_usuario: CriarUsuarioRequest,
}

pub struct OtimizarRotaRequest {
    pub nome: String,
    pub senha: String,
    pub pedido: PedidoOtimizacao,
}

pub struct AdicionarDistanciaRequest {
    pub nome: String,
    pub senha: String,
    pub distancia: PedidoNovaDistancia,
}

pub struct AtualizarPrevisaoRequest {
    pub nome: String,
    pub senha: String,
    pub previsao: DadosPrevisao,
}

/// The envelope of every API answer: data on success, a message on error.
pub struct ApiResponse<T> {
    pub success: bool,
    pub data: Option<T>,
    pub message: Option<String>,
}

impl<T> ApiResponse<T> {
    pub fn success(data: T) -> (r: ApiResponse<T>)
        ensures
            r.success,
            r.data == Some(data),
            r.message.is_none(),
    {
        ApiResponse { success: true, data: Some(data), message: None }
    }

    pub fn error(message: String) -> (r: ApiResponse<T>)
        ensures
            !r.success,
            r.data.is_none(),
            r.message == Some(message),
    {
        ApiResponse { success: false, data: None, message: Some(message) }
    }
}

pub struct ErrorResponse {
    pub error: String,
}

} // verus!
