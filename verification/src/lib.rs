//! Ingestion and unification of ECAD weather archives: parsing of the text
//! files, the join by station and day, quality assessment and integrity checks.
//!
//! Measured values are held as whole tenths of their unit, exactly as the
//! archive files give them, and angles as whole micro-arcseconds.

pub mod analyzers;
pub mod archive;
pub mod error;
pub mod models;
pub mod processors;
pub mod readers;
pub mod utils;
pub mod writers;

pub use error::ProcessingError;
