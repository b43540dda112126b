//! Observations of one temperature file and the provider's source flags.

use vstd::prelude::*;
use vstd::string::*;
use crate::error::ProcessingError;
use crate::models::date::Date;

verus! {

/// The source flag that the data provider attaches to a value.
#[derive(Debug, Clone, Copy, PartialEq, Eq, Structural)]
pub enum QualityFlag {
    Valid,
    Suspect,
    Missing,
}

pub open spec fn flag_of_code(value: u8) -> Option<QualityFlag> {
    if value == 0 {
        Some(QualityFlag::Valid)
    } else if value == 1 {
        Some(QualityFlag::Suspect)
    } else if value == 9 {
        Some(QualityFlag::Missing)
    } else {
        None
    }
}

impl QualityFlag {
    /// The number that stands for the flag in the files.
    pub open spec fn code(self) -> u8 {
        match self {
            QualityFlag::Valid => 0,
            QualityFlag::Suspect => 1,
            QualityFlag::Missing => 9,
        }
    }

    /// The character that stands for the flag in a record.
    pub open spec fn character(self) -> char {
        match self {
            QualityFlag::Valid => '0',
            QualityFlag::Suspect => '1',
            QualityFlag::Missing => '9',
        }
    }

    /// The flag for a number of a file: 0, 1 and 9 are flags, nothing else is.
    pub fn from_u8(value: u8) -> (r: Result<QualityFlag, ProcessingError>)
        ensures
            match r {
                Ok(f) => flag_of_code(value) == Some(f),
                Err(e) => flag_of_code(value).is_none() && e
                    == ProcessingError::InvalidQualityFlag(value),
            },
    {
        if value == 0 {
            Ok(QualityFlag::Valid)
        } else if value == 1 {
            Ok(QualityFlag::Suspect)
        } else if value == 9 {
            Ok(QualityFlag::Missing)
        } else {
            Err(ProcessingError::InvalidQualityFlag(value))
        }
    }

    pub fn as_u8(&self) -> (r: u8)
        ensures
            r == self.code(),
    {
        match self {
            QualityFlag::Valid => 0,
            QualityFlag::Suspect => 1,
            QualityFlag::Missing => 9,
        }
    }

    pub fn as_char(&self) -> (r: char)
        ensures
            r == self.character(),
    {
        match self {
            QualityFlag::Valid => '0',
            QualityFlag::Suspect => '1',
            QualityFlag::Missing => '9',
        }
    }

    /// Only values that the provider holds for valid are checked strictly.
    pub fn should_enforce_strict_validation(&self) -> (r: bool)
        ensures
            r == (*self == QualityFlag::Valid),
    {
        match self {
            QualityFlag::Valid => true,
            _ => false,
        }
    }

    /// A value can be used unless the provider marks it as missing.
    pub fn is_usable(&self) -> (r: bool)
        ensures
            r == (*self != QualityFlag::Missing),
    {
        match self {
            QualityFlag::Missing => false,
            _ => true,
        }
    }
}

/// The flag character of a number of a file; `'9'` for a number that is no flag.
pub open spec fn flag_char_or_missing(code: u8) -> char {
    match flag_of_code(code) {
        Some(f) => f.character(),
        None => '9',
    }
}

/// The least and the greatest temperature that counts as in range, in tenths
/// of a degree Celsius.
pub const MIN_VALID_TEMP: i32 = -500;

pub const MAX_VALID_TEMP: i32 = 500;

/// By how many tenths of a degree the temperatures of one series may cross.
pub const TEMP_TOLERANCE: i32 = 1;

/// One row of a temperature file.
#[derive(Debug, Clone, Copy, PartialEq, Eq, Structural)]
pub struct TemperatureRecord {
    pub staid: u32,
    pub souid: u32,
    pub date: Date,
    /// Tenths of a degree Celsius.
    pub temperature: i32,
    pub quality_flag: u8,
}

impl TemperatureRecord {
    /// A row with the given values; the flag has to be one of 0, 1 and 9.
    pub fn new(staid: u32, souid: u32, date: Date, temperature: i32, quality_flag: u8) -> (r:
        Result<TemperatureRecord, ProcessingError>)
        ensures
            match r {
                Ok(rec) => flag_of_code(quality_flag).is_some() && rec == (TemperatureRecord {
                    staid,
                    souid,
                    date,
                    temperature,
                    quality_flag,
                }),
                Err(e) => flag_of_code(quality_flag).is_none() && e
                    == ProcessingError::InvalidQualityFlag(quality_flag),
            },
    {
        match QualityFlag::from_u8(quality_flag) {
            Ok(_) => Ok(TemperatureRecord { staid, souid, date, temperature, quality_flag }),
            Err(e) => Err(e),
        }
    }

    pub fn quality(&self) -> (r: Result<QualityFlag, ProcessingError>)
        ensures
            match r {
                Ok(f) => flag_of_code(self.quality_flag) == Some(f),
                Err(e) => flag_of_code(self.quality_flag).is_none() && e
                    == ProcessingError::InvalidQualityFlag(self.quality_flag),
            },
    {
        QualityFlag::from_u8(self.quality_flag)
    }

    pub open spec fn in_valid_range(self) -> bool {
        MIN_VALID_TEMP <= self.temperature <= MAX_VALID_TEMP
    }

    pub fn is_valid_temperature(&self) -> (r: bool)
        ensures
            r == self.in_valid_range(),
    {
        self.temperature >= MIN_VALID_TEMP && self.temperature <= MAX_VALID_TEMP
    }

    /// Accepts the row if its temperature is between -50 and 50 degrees.
    pub fn validate(&self) -> (r: Result<(), ProcessingError>)
        ensures
            r is Ok <==> self.in_valid_range(),
            r matches Err(e) ==> e is TemperatureValidation,
    {
        if !self.is_valid_temperature() {
            return Err(
                ProcessingError::TemperatureValidation {
                    message: String::from_str("Temperature is outside valid range [-50, 50]"),
                },
            );
        }
        Ok(())
    }
}

/// The minimum, maximum and average of one station and day.
#[derive(Debug, Clone, Copy, PartialEq, Eq, Structural)]
pub struct TemperatureSet {
    pub min: Option<TemperatureRecord>,
    pub max: Option<TemperatureRecord>,
    pub avg: Option<TemperatureRecord>,
}

/// The flag character of an optional row: that of its flag, `'9'` without a
/// row or with a number that is no flag.
pub open spec fn slot_flag_char(slot: Option<TemperatureRecord>) -> char {
    match slot {
        Some(r) => flag_char_or_missing(r.quality_flag),
        None => '9',
    }
}

fn slot_flag_str(slot: &Option<TemperatureRecord>) -> (s: &'static str)
    ensures
        s@ == seq![slot_flag_char(*slot)],
{
    proof {
        reveal_strlit("0");
        reveal_strlit("1");
        reveal_strlit("9");
    }
    let s = match slot {
        Some(r) => {
            if r.quality_flag == 0 {
                "0"
            } else if r.quality_flag == 1 {
                "1"
            } else {
                "9"
            }
        },
        None => "9",
    };
    assert(s@ =~= seq![slot_flag_char(*slot)]);
    s
}

impl TemperatureSet {
    pub fn new() -> (r: TemperatureSet)
        ensures
            r == (TemperatureSet { min: None, max: None, avg: None }),
    {
        TemperatureSet { min: None, max: None, avg: None }
    }

    /// With all three present: the minimum is at most the average and the
    /// average at most the maximum, each within a tenth of a degree.
    pub open spec fn ordered(self) -> bool {
        (self.min is Some && self.avg is Some && self.max is Some) ==> (self.min->0.temperature
            <= self.avg->0.temperature + TEMP_TOLERANCE && self.avg->0.temperature
            <= self.max->0.temperature + TEMP_TOLERANCE)
    }

    pub fn validate_relationships(&self) -> (r: Result<(), ProcessingError>)
        ensures
            r is Ok <==> self.ordered(),
            r matches Err(e) ==> e is TemperatureValidation,
    {
        match (self.min, self.avg, self.max) {
            (Some(min), Some(avg), Some(max)) => {
                if min.temperature as i64 > avg.temperature as i64 + TEMP_TOLERANCE as i64 {
                    return Err(
                        ProcessingError::TemperatureValidation {
                            message: String::from_str("Min temperature > Avg temperature"),
                        },
                    );
                }
                if avg.temperature as i64 > max.temperature as i64 + TEMP_TOLERANCE as i64 {
                    return Err(
                        ProcessingError::TemperatureValidation {
                            message: String::from_str("Avg temperature > Max temperature"),
                        },
                    );
                }
                Ok(())
            },
            _ => Ok(()),
        }
    }

    /// The flag characters of minimum, average and maximum, in that order.
    pub fn quality_flags_string(&self) -> (s: String)
        ensures
            s@ == seq![
                slot_flag_char(self.min),
                slot_flag_char(self.avg),
                slot_flag_char(self.max),
            ],
    {
        let mut s = String::from_str(slot_flag_str(&self.min));
        s.append(slot_flag_str(&self.avg));
        s.append(slot_flag_str(&self.max));
        assert(s@ =~= seq![
            slot_flag_char(self.min),
            slot_flag_char(self.avg),
            slot_flag_char(self.max),
        ]);
        s
    }
}

} // verus!
