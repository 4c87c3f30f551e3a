//! Authentication and authorization core of a library-management backend:
//! signed session tokens, password checks, and the role/permission model
//! over an in-memory image of the credential tables.
//!
//! The operations take the tables (`database::Database`) and the signing
//! key (`token::SigningKey`) as arguments; the key is made once per process,
//! so tokens do not outlive the process that issued them.

pub mod database;
pub mod db_structs;
pub mod decimal;
pub mod error;
pub mod laws;
pub mod librarians;
pub mod password;
pub mod roles;
pub mod token;
