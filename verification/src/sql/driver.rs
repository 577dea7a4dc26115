//! The database side: the data model of table definitions, the connection
//! parameters of the driver, and the migration procedure.

pub mod database;
pub mod databend;
pub mod migration;
pub mod model;
