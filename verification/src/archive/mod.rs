//! Archives of per-station data files: what they hold, and how their files
//! are read into unified records.

pub mod inspector;
pub mod multi_processor;
pub mod processor;
pub mod record_table;

pub use inspector::{ArchiveInspector, ArchiveMetadata};
pub use multi_processor::{ArchiveInfo, DatasetComposition, DirectoryFile, MultiArchiveProcessor};
pub use processor::ArchiveProcessor;

use vstd::prelude::*;
use crate::utils::text::{chars_of, equals_str};

verus! {

/// What a data file measures.
#[derive(Debug, Clone, Copy, PartialEq, Eq, Hash, Structural)]
pub enum WeatherMetric {
    Temperature(TemperatureType),
    Precipitation,
    WindSpeed,
}

/// Which temperature of the day a file holds.
#[derive(Debug, Clone, Copy, PartialEq, Eq, Hash, Structural)]
pub enum TemperatureType {
    Minimum,
    Maximum,
    Average,
}

/// One file of an archive: its name and its text.
#[derive(Debug, Clone)]
pub struct ArchiveEntry {
    pub name: String,
    pub content: String,
}

/// The metric that a file prefix stands for.
pub open spec fn metric_of_prefix(prefix: Seq<char>) -> Option<WeatherMetric> {
    if prefix == "TN"@ {
        Some(WeatherMetric::Temperature(TemperatureType::Minimum))
    } else if prefix == "TX"@ {
        Some(WeatherMetric::Temperature(TemperatureType::Maximum))
    } else if prefix == "TG"@ {
        Some(WeatherMetric::Temperature(TemperatureType::Average))
    } else if prefix == "RR"@ {
        Some(WeatherMetric::Precipitation)
    } else if prefix == "FG"@ {
        Some(WeatherMetric::WindSpeed)
    } else {
        None
    }
}

/// The metric that the characters of a file prefix stand for.
pub fn metric_of_prefix_chars(prefix: &Vec<char>) -> (r: Option<WeatherMetric>)
    ensures
        r == metric_of_prefix(prefix@),
{
    if equals_str(prefix, "TN") {
        Some(WeatherMetric::Temperature(TemperatureType::Minimum))
    } else if equals_str(prefix, "TX") {
        Some(WeatherMetric::Temperature(TemperatureType::Maximum))
    } else if equals_str(prefix, "TG") {
        Some(WeatherMetric::Temperature(TemperatureType::Average))
    } else if equals_str(prefix, "RR") {
        Some(WeatherMetric::Precipitation)
    } else if equals_str(prefix, "FG") {
        Some(WeatherMetric::WindSpeed)
    } else {
        None
    }
}

impl WeatherMetric {
    /// The prefix of the files of the metric.
    pub open spec fn prefix(self) -> Seq<char> {
        match self {
            WeatherMetric::Temperature(TemperatureType::Minimum) => "TN"@,
            WeatherMetric::Temperature(TemperatureType::Maximum) => "TX"@,
            WeatherMetric::Temperature(TemperatureType::Average) => "TG"@,
            WeatherMetric::Precipitation => "RR"@,
            WeatherMetric::WindSpeed => "FG"@,
        }
    }

    /// The name of the metric for people.
    pub open spec fn label(self) -> Seq<char> {
        match self {
            WeatherMetric::Temperature(TemperatureType::Minimum) => "Temperature (Min)"@,
            WeatherMetric::Temperature(TemperatureType::Maximum) => "Temperature (Max)"@,
            WeatherMetric::Temperature(TemperatureType::Average) => "Temperature (Avg)"@,
            WeatherMetric::Precipitation => "Precipitation"@,
            WeatherMetric::WindSpeed => "Wind Speed"@,
        }
    }

    /// The unit in which the files give the metric.
    pub open spec fn unit_text(self) -> Seq<char> {
        match self {
            WeatherMetric::Temperature(_) => "0.1°C"@,
            WeatherMetric::Precipitation => "0.1mm"@,
            WeatherMetric::WindSpeed => "0.1 m/s"@,
        }
    }

    pub fn from_file_prefix(prefix: &str) -> (r: Option<WeatherMetric>)
        ensures
            r == metric_of_prefix(prefix@),
    {
        let p = chars_of(prefix);
        metric_of_prefix_chars(&p)
    }

    pub fn to_file_prefix(&self) -> (s: &'static str)
        ensures
            s@ == self.prefix(),
    {
        match self {
            WeatherMetric::Temperature(TemperatureType::Minimum) => "TN",
            WeatherMetric::Temperature(TemperatureType::Maximum) => "TX",
            WeatherMetric::Temperature(TemperatureType::Average) => "TG",
            WeatherMetric::Precipitation => "RR",
            WeatherMetric::WindSpeed => "FG",
        }
    }

    pub fn display_name(&self) -> (s: &'static str)
        ensures
            s@ == self.label(),
    {
        match self {
            WeatherMetric::Temperature(TemperatureType::Minimum) => "Temperature (Min)",
            WeatherMetric::Temperature(TemperatureType::Maximum) => "Temperature (Max)",
            WeatherMetric::Temperature(TemperatureType::Average) => "Temperature (Avg)",
            WeatherMetric::Precipitation => "Precipitation",
            WeatherMetric::WindSpeed => "Wind Speed",
        }
    }

    pub fn units(&self) -> (s: &'static str)
        ensures
            s@ == self.unit_text(),
    {
        match self {
            WeatherMetric::Temperature(_) => "0.1°C",
            WeatherMetric::Precipitation => "0.1mm",
            WeatherMetric::WindSpeed => "0.1 m/s",
        }
    }

    /// Whether the metric is one of the three temperatures.
    pub fn is_temperature(&self) -> (r: bool)
        ensures
            r == (*self is Temperature),
    {
        match self {
            WeatherMetric::Temperature(_) => true,
            _ => false,
        }
    }
}

/// The prefix of a metric stands for that metric and for no other.
pub proof fn lemma_prefix_round_trip(m: WeatherMetric)
    ensures
        metric_of_prefix(m.prefix()) == Some(m),
{
    reveal_strlit("TN");
    reveal_strlit("TX");
    reveal_strlit("TG");
    reveal_strlit("RR");
    reveal_strlit("FG");
    assert("TN"@[1] == 'N' && "TX"@[1] == 'X' && "TG"@[1] == 'G' && "RR"@[1] == 'R' && "FG"@[1]
        == 'G');
    assert("TN"@[0] == 'T' && "TX"@[0] == 'T' && "TG"@[0] == 'T' && "RR"@[0] == 'R' && "FG"@[0]
        == 'F');
}

} // verus!
