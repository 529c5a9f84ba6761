//! A small CRUD service over one entity, the Game: request schemas, the
//! mapping of store outcomes to replies, and an in-memory store.
pub mod error;
pub mod handler;
pub mod ident;
pub mod laws;
pub mod memory;
pub mod model;
pub mod schema;
pub mod text;
