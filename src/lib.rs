pub mod creator;
pub mod database;
pub mod error;
pub mod ident;
pub mod password;
pub mod session;
pub mod routes;
pub mod laws;
