//! The data model: days, stations, observations and unified records.

pub mod consolidated;
pub mod date;
pub mod station;
pub mod temperature;
pub mod weather;

pub use consolidated::{ConsolidatedRecord, ConsolidatedRecordBuilder};
pub use date::Date;
pub use station::StationMetadata;
pub use temperature::{QualityFlag, TemperatureRecord, TemperatureSet};
pub use weather::{DataQuality, PhysicalValidity, WeatherRecord, WeatherRecordBuilder};
