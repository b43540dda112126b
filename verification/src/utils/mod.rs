//! Text handling and other small helpers shared by the readers and processors.

pub mod coordinates;
pub mod filename;
pub mod table;
pub mod text;

pub use coordinates::dms_to_decimal;
pub use filename::{generate_default_parquet_filename, generate_default_unified_parquet_filename};
