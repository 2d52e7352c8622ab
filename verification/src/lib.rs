//! Snapshots of an Iceberg table, their summaries and references.

pub mod decimal;
pub mod string_map;
pub mod text;
pub mod table;
pub mod snapshot;
pub mod summary;
pub mod time;
