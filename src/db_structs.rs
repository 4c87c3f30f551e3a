//! Rows of the library's tables.

use vstd::prelude::*;

verus! {

pub struct Autor {
    pub id: i32,
    pub nome: String,
    pub nacionalidade: Option<String>,
    pub data_nasc: Option<String>,
    pub data_morte: Option<String>,
}

/// A librarian: `password` holds the salted hash, never the password;
/// `cargo` names the librarian's role, if any.
#[derive(Debug, PartialEq, Eq)]
pub struct Bibliotecario {
    pub id: i32,
    pub nome: String,
    pub password: String,
    pub cargo: Option<String>,
}

pub struct Categoria {
    pub id: i32,
    pub nome: String,
}

pub struct Editora {
    pub id: i32,
    pub nome: String,
    pub morada: Option<String>,
    pub codigo_postal: Option<String>,
    pub telefone: Option<String>,
    pub email: Option<String>,
}

pub struct Leitor {
    pub id: i32,
    pub nome: String,
    pub morada: String,
    pub telefone: String,
    pub email: String,
}

pub struct Livro {
    pub id: i32,
    pub nome: String,
    pub resumo: Option<String>,
    pub n_paginas: i32,
    pub idioma: String,
    pub img_url: Option<String>,
    pub ano_edicao: Option<String>,
    pub id_autor: Option<i32>,
    pub id_editora: i32,
    pub id_secao: i32,
    pub id_sub_categoria: Option<i32>,
}

/// A loan; the two instants are seconds since the Unix epoch, in UTC.
#[derive(Clone, Copy)]
pub struct Requisicao {
    pub id: i32,
    pub id_leitor: i32,
    pub id_livro_requisitado: i32,
    pub data_requisicao: i64,
    pub data_entrega: Option<i64>,
}

pub struct Secao {
    pub id: i32,
    pub id_categoria: i32,
    pub nome: String,
}

pub struct SubCategoria {
    pub id: i32,
    pub id_categoria: i32,
    pub nome: String,
}

/// A permission: `acao` is its unique action key, `label` its display text.
#[derive(Debug, PartialEq, Eq)]
pub struct Permissao {
    pub id: i32,
    pub acao: String,
    pub label: String,
}

/// One grant: role `nome` holds permission `permissao`.
#[derive(Debug, PartialEq, Eq)]
pub struct Cargo {
    pub nome: String,
    pub permissao: i32,
}

pub struct LivroAsResponse {
    pub id: i32,
    pub nome: String,
    pub resumo: Option<String>,
    pub n_paginas: i32,
    pub idioma: String,
    pub img_url: Option<String>,
    pub ano_edicao: Option<String>,
    pub autor: Option<String>,
    pub autor_id: Option<i32>,
    pub editora: String,
    pub id_secao: i32,
    pub categoria: Option<String>,
    pub sub_categoria: Option<String>,
    pub requisitado: bool,
}

pub fn clone_opt_string(s: &Option<String>) -> (r: Option<String>)
    ensures
        r == *s,
{
    match s {
        Some(v) => Some(v.clone()),
        None => None,
    }
}

impl Bibliotecario {
    pub fn duplicate(&self) -> (r: Bibliotecario)
        ensures
            r == *self,
    {
        Bibliotecario {
            id: self.id,
            nome: self.nome.clone(),
            password: self.password.clone(),
            cargo: clone_opt_string(&self.cargo),
        }
    }
}

impl Permissao {
    pub fn duplicate(&self) -> (r: Permissao)
        ensures
            r == *self,
    {
        Permissao { id: self.id, acao: self.acao.clone(), label: self.label.clone() }
    }
}

impl Cargo {
    pub fn duplicate(&self) -> (r: Cargo)
        ensures
            r == *self,
    {
        Cargo { nome: self.nome.clone(), permissao: self.permissao }
    }
}

} // verus!
