//! Checks and merges over records that have been read.

pub mod data_merger;
pub mod integrity_checker;
pub mod parallel_processor;

pub use data_merger::DataMerger;
pub use parallel_processor::ParallelProcessor;
pub use integrity_checker::{
    IntegrityChecker, IntegrityReport, StationStatistics, TemperatureViolation, ViolationType,
};
