//! Host-side logic of a multi-tenant WebAssembly application server.

pub mod api;
pub mod error;
pub mod gql;
pub mod json;
pub mod sql;
pub mod state;
pub mod text;
pub mod wasm;
