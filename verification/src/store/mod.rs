//! The state store's records: how rows become records, how records are
//! ordered, and what is written.
pub mod migration;
pub mod records;
pub mod schema;
pub mod settings;
pub mod laws;
