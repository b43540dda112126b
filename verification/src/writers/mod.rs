//! The logical table that unified records are written to.

pub mod dataset_summary;
pub mod parquet_writer;

pub use dataset_summary::{
    EnhancedDataQuality, ExtremeRecords, GeographicBounds, MetricStatistics, TemporalCoverage,
    WeatherDatasetSummary,
};
pub use parquet_writer::{Compression, ParquetWriter, SchemaType};
