//! Figures drawn from sets of consolidated records.

pub mod weather_analyzer;

pub use weather_analyzer::{DataQuality, WeatherAnalyzer, WeatherStatistics};
