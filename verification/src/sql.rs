//! Table definitions of a tenant and their reconciliation with the database.

pub mod driver;
pub mod sql_loader;
