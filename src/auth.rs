//! User profiles and the permissions that each profile grants.
use vstd::prelude::*;

verus! {

/// The role of a user of the system.
#[derive(Debug, Clone, Copy, PartialEq, Eq, Structural)]
pub enum PerfilUsuario {
    Comum,
    Tecnico,
    Administrador,
}

/// The text under which a profile is stored.
pub open spec fn nome_perfil(p: PerfilUsuario) -> Seq<char> {
    match p {
        PerfilUsuario::Comum => "Comum"@,
        PerfilUsuario::Tecnico => "Tecnico"@,
        PerfilUsuario::Administrador => "Administrador"@,
    }
}

/// The profile stored under the text `s`, if any.
pub open spec fn perfil_de_nome(s: Seq<char>) -> Option<PerfilUsuario> {
    if s == "Comum"@ {
        Some(PerfilUsuario::Comum)
    } else if s == "Tecnico"@ {
        Some(PerfilUsuario::Tecnico)
    } else if s == "Administrador"@ {
        Some(PerfilUsuario::Administrador)
    } else {
        None
    }
}

/// The message of a failed profile parse of the text `s`.
pub open spec fn mensagem_perfil_desconhecido(s: Seq<char>) -> Seq<char> {
    "Perfil desconhecido: '"@ + s + "'"@
}

/// A profile name that is none of the known ones.
#[derive(Debug)]
pub struct PerfilParseError(pub String);

impl PerfilParseError {
    /// The message carried by the error.
    pub fn mensagem(&self) -> (r: String)
        ensures
            r@ == self.0@,
    {
        self.0.clone()
    }
}

impl PerfilUsuario {
    pub fn as_str(&self) -> (r: &'static str)
        ensures
            r@ == nome_perfil(*self),
    {
        match self {
            PerfilUsuario::Comum => "Comum",
            PerfilUsuario::Tecnico => "Tecnico",
            PerfilUsuario::Administrador => "Administrador",
        }
    }

    /// Reads a profile from its stored text; any other text is refused.
    pub fn try_from(value: &str) -> (r: Result<PerfilUsuario, PerfilParseError>)
        ensures
            match r {
                Ok(p) => perfil_de_nome(value@) == Some(p),
                Err(e) => perfil_de_nome(value@).is_none()
                    && e.0@ == mensagem_perfil_desconhecido(value@),
            },
    {
        let v = value.to_owned();
        if v == "Comum".to_owned() {
            Ok(PerfilUsuario::Comum)
        } else if v == "Tecnico".to_owned() {
            Ok(PerfilUsuario::Tecnico)
        } else if v == "Administrador".to_owned() {
            Ok(PerfilUsuario::Administrador)
        } else {
            let m = String::from_str("Perfil desconhecido: '");
            let m = m.concat(value);
            let m = m.concat("'");
            Err(PerfilParseError(m))
        }
    }
}

/// A user as the permission rules see it.
pub struct Usuario {
    pub id: u32,
    pub nome: String,
    pub perfil: PerfilUsuario,
}

impl Usuario {
    pub fn pode_inserir_dados(&self) -> (r: bool)
        ensures
            r,
    {
        match self.perfil {
            PerfilUsuario::Comum | PerfilUsuario::Tecnico | PerfilUsuario::Administrador => true,
        }
    }

    pub fn pode_pre_processar(&self) -> (r: bool)
        ensures
            r == (self.perfil != PerfilUsuario::Comum),
    {
        match self.perfil {
            PerfilUsuario::Tecnico | PerfilUsuario::Administrador => true,
            PerfilUsuario::Comum => false,
        }
    }

    pub fn pode_acessar_predicoes(&self) -> (r: bool)
        ensures
            r == (self.perfil != PerfilUsuario::Comum),
    {
        self.pode_pre_processar()
    }

    /// Whether the user may request route optimisation and feed distances
    /// or forecasts.
    pub fn pode_otimizar_rotas(&self) -> (r: bool)
        ensures
            r == (self.perfil != PerfilUsuario::Comum),
    {
        match self.perfil {
            PerfilUsuario::Tecnico | PerfilUsuario::Administrador => true,
            _ => false,
        }
    }

    pub fn pode_gerenciar_usuarios(&self) -> (r: bool)
        ensures
            r == (self.perfil == PerfilUsuario::Administrador),
    {
        match self.perfil {
            PerfilUsuario::Administrador => true,
            _ => false,
        }
    }
}

} // verus!
