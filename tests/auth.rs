use otimizacao_coleta::api::models::{ApiResponse, UsuarioResponse};
use otimizacao_coleta::{PerfilUsuario, Usuario};

fn usuario(perfil: PerfilUsuario) -> Usuario {
    Usuario { id: 7, nome: "ana".to_string(), perfil }
}

#[test]
fn perfil_como_texto() {
    assert_eq!(PerfilUsuario::Comum.as_str(), "Comum");
    assert_eq!(PerfilUsuario::Tecnico.as_str(), "Tecnico");
    assert_eq!(PerfilUsuario::Administrador.as_str(), "Administrador");
}

#[test]
fn perfil_de_texto() {
    assert_eq!(PerfilUsuario::try_from("Comum").unwrap(), PerfilUsuario::Comum);
    assert_eq!(PerfilUsuario::try_from("Tecnico").unwrap(), PerfilUsuario::Tecnico);
    assert_eq!(PerfilUsuario::try_from("Administrador").unwrap(), PerfilUsuario::Administrador);
    let e = PerfilUsuario::try_from("admin").unwrap_err();
    assert_eq!(e.mensagem(), "Perfil desconhecido: 'admin'");
}

#[test]
fn permissoes_por_perfil() {
    let c = usuario(PerfilUsuario::Comum);
    let t = usuario(PerfilUsuario::Tecnico);
    let a = usuario(PerfilUsuario::Administrador);
    assert!(c.pode_inserir_dados() && t.pode_inserir_dados() && a.pode_inserir_dados());
    assert!(!c.pode_pre_processar() && t.pode_pre_processar() && a.pode_pre_processar());
    assert!(!c.pode_acessar_predicoes() && t.pode_acessar_predicoes() && a.pode_acessar_predicoes());
    assert!(!c.pode_otimizar_rotas() && t.pode_otimizar_rotas() && a.pode_otimizar_rotas());
    assert!(!c.pode_gerenciar_usuarios() && !t.pode_gerenciar_usuarios() && a.pode_gerenciar_usuarios());
}

#[test]
fn resposta_de_usuario() {
    let u = usuario(PerfilUsuario::Tecnico);
    let r = UsuarioResponse::from(&u);
    assert_eq!(r.id, 7);
    assert_eq!(r.nome, "ana");
    assert_eq!(r.perfil, "Tecnico");
}

#[test]
fn envelope_de_resposta() {
    let ok: ApiResponse<u32> = ApiResponse::success(3);
    assert!(ok.success);
    assert_eq!(ok.data, Some(3));
    assert_eq!(ok.message, None);
    let err: ApiResponse<u32> = ApiResponse::error("falhou".to_string());
    assert!(!err.success);
    assert_eq!(err.data, None);
    assert_eq!(err.message, Some("falhou".to_string()));
}
