//! Readers of the text files of an archive.

pub mod concurrent_reader;
pub mod station_reader;
pub mod temperature_reader;

pub use concurrent_reader::{ConcurrentReader, StationTemperatureData};
pub use station_reader::StationReader;
pub use temperature_reader::TemperatureReader;
