//! The typed query schema of a tenant: compiling type descriptors and linking
//! handlers.

pub mod gql_helper;
pub mod gql_loader;
