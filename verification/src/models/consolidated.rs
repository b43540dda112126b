//! The record of the three temperatures of one station and day.

use vstd::prelude::*;
use vstd::string::*;
use crate::error::ProcessingError;
use crate::models::date::Date;
use crate::models::station::{latitude_in_range, latitude_ok, longitude_in_range, longitude_ok};
use crate::models::weather::{
    text_view,
    WeatherRecord,
    WeatherRecordView,
    RANGE_TEMP_HIGH,
    RANGE_TEMP_LOW,
    RELATION_TOLERANCE,
};
use crate::utils::coordinates::Coordinate;
use crate::utils::text::{chars_of, contains_char, equals_str};

verus! {

/// The value that stands for a temperature that is not there.
pub const MISSING_TEMPERATURE: i32 = -9999;

/// Minimum, maximum and average temperature of one station and day, in
/// tenths of a degree, with the flags of the three in the order minimum,
/// average, maximum.
#[derive(Debug, Clone)]
pub struct ConsolidatedRecord {
    pub station_id: u32,
    pub station_name: String,
    pub date: Date,
    pub latitude: Coordinate,
    pub longitude: Coordinate,
    pub min_temp: i32,
    pub max_temp: i32,
    pub avg_temp: i32,
    pub quality_flags: String,
}

/// A consolidated record with its texts as sequences of characters.
pub struct ConsolidatedView {
    pub station_id: u32,
    pub station_name: Seq<char>,
    pub date: Date,
    pub latitude: Coordinate,
    pub longitude: Coordinate,
    pub min_temp: i32,
    pub max_temp: i32,
    pub avg_temp: i32,
    pub quality_flags: Seq<char>,
}

impl View for ConsolidatedRecord {
    type V = ConsolidatedView;

    open spec fn view(&self) -> ConsolidatedView {
        ConsolidatedView {
            station_id: self.station_id,
            station_name: self.station_name@,
            date: self.date,
            latitude: self.latitude,
            longitude: self.longitude,
            min_temp: self.min_temp,
            max_temp: self.max_temp,
            avg_temp: self.avg_temp,
            quality_flags: self.quality_flags@,
        }
    }
}

/// A temperature unless it is the sentinel.
pub open spec fn present(t: i32) -> Option<i32> {
    if t == MISSING_TEMPERATURE {
        None
    } else {
        Some(t)
    }
}

fn value_if_present(t: i32) -> (r: Option<i32>)
    ensures
        r == present(t),
{
    if t == MISSING_TEMPERATURE {
        None
    } else {
        Some(t)
    }
}

/// The characters of a text, each once, in the order in which they first
/// occur.
pub open spec fn distinct_marks(s: Seq<char>) -> Seq<char>
    decreases s.len(),
{
    if s.len() == 0 {
        Seq::empty()
    } else {
        let before = distinct_marks(s.drop_last());
        if before.contains(s.last()) {
            before
        } else {
            before.push(s.last())
        }
    }
}

/// The unified record of a consolidated record: a temperature that is the
/// sentinel is left out, and the marks of the three flags become the
/// temperature flag, each mark once.
pub open spec fn unified_of(r: ConsolidatedView) -> WeatherRecordView {
    (WeatherRecordView {
        station_id: r.station_id,
        station_name: r.station_name,
        date: r.date,
        latitude: r.latitude,
        longitude: r.longitude,
        temp_min: present(r.min_temp),
        temp_max: present(r.max_temp),
        temp_avg: present(r.avg_temp),
        precipitation: None,
        wind_speed: None,
        temp_quality: Some(distinct_marks(r.quality_flags)),
        precip_quality: None,
        wind_quality: None,
        temp_validation: None,
        precip_validation: None,
        wind_validation: None,
    }).validated()
}

impl ConsolidatedView {
    /// The minimum is at most the average and the average at most the
    /// maximum, each within one degree.
    pub open spec fn temperatures_ordered(self) -> bool {
        self.min_temp <= self.avg_temp + RELATION_TOLERANCE && self.avg_temp <= self.max_temp
            + RELATION_TOLERANCE
    }

    /// The first field that lies outside its accepted range, if any.
    pub open spec fn field_out_of_range(self) -> Option<Seq<char>> {
        if !latitude_in_range(self.latitude) {
            Some("latitude"@)
        } else if !longitude_in_range(self.longitude) {
            Some("longitude"@)
        } else if !(RANGE_TEMP_LOW <= self.min_temp <= RANGE_TEMP_HIGH) {
            Some("min_temp"@)
        } else if !(RANGE_TEMP_LOW <= self.max_temp <= RANGE_TEMP_HIGH) {
            Some("max_temp"@)
        } else if !(RANGE_TEMP_LOW <= self.avg_temp <= RANGE_TEMP_HIGH) {
            Some("avg_temp"@)
        } else {
            None
        }
    }
}

impl ConsolidatedRecord {
    pub fn new(
        station_id: u32,
        station_name: String,
        date: Date,
        latitude: Coordinate,
        longitude: Coordinate,
        min_temp: i32,
        max_temp: i32,
        avg_temp: i32,
        quality_flags: String,
    ) -> (r: ConsolidatedRecord)
        ensures
            r@ == (ConsolidatedView {
                station_id,
                station_name: station_name@,
                date,
                latitude,
                longitude,
                min_temp,
                max_temp,
                avg_temp,
                quality_flags: quality_flags@,
            }),
    {
        ConsolidatedRecord {
            station_id,
            station_name,
            date,
            latitude,
            longitude,
            min_temp,
            max_temp,
            avg_temp,
            quality_flags,
        }
    }

    /// A copy of the record.
    pub fn duplicate(&self) -> (r: ConsolidatedRecord)
        ensures
            r@ == self@,
    {
        ConsolidatedRecord {
            station_id: self.station_id,
            station_name: self.station_name.clone(),
            date: self.date,
            latitude: self.latitude,
            longitude: self.longitude,
            min_temp: self.min_temp,
            max_temp: self.max_temp,
            avg_temp: self.avg_temp,
            quality_flags: self.quality_flags.clone(),
        }
    }

    /// Checks the order of the temperatures, then the range of each field.
    pub fn validate_relationships(&self) -> (r: Result<(), ProcessingError>)
        ensures
            r is Ok <==> self@.temperatures_ordered() && self@.field_out_of_range().is_none(),
            r matches Err(e) ==> (if !self@.temperatures_ordered() {
                e is TemperatureValidation
            } else {
                e matches ProcessingError::Validation(field) && Some(field@)
                    == self@.field_out_of_range()
            }),
    {
        if self.min_temp as i64 > self.avg_temp as i64 + RELATION_TOLERANCE as i64 {
            return Err(
                ProcessingError::TemperatureValidation {
                    message: String::from_str("Min temperature > Avg temperature (tolerance=1)"),
                },
            );
        }
        if self.avg_temp as i64 > self.max_temp as i64 + RELATION_TOLERANCE as i64 {
            return Err(
                ProcessingError::TemperatureValidation {
                    message: String::from_str("Avg temperature > Max temperature (tolerance=1)"),
                },
            );
        }
        if !latitude_ok(self.latitude) {
            return Err(ProcessingError::Validation(String::from_str("latitude")));
        }
        if !longitude_ok(self.longitude) {
            return Err(ProcessingError::Validation(String::from_str("longitude")));
        }
        if self.min_temp < RANGE_TEMP_LOW || self.min_temp > RANGE_TEMP_HIGH {
            return Err(ProcessingError::Validation(String::from_str("min_temp")));
        }
        if self.max_temp < RANGE_TEMP_LOW || self.max_temp > RANGE_TEMP_HIGH {
            return Err(ProcessingError::Validation(String::from_str("max_temp")));
        }
        if self.avg_temp < RANGE_TEMP_LOW || self.avg_temp > RANGE_TEMP_HIGH {
            return Err(ProcessingError::Validation(String::from_str("avg_temp")));
        }
        Ok(())
    }

    /// The record as a unified record: a temperature that is the sentinel is
    /// left out, and the marks of the three flags become the temperature
    /// flag, each mark once.
    pub fn as_weather_record(&self) -> (r: WeatherRecord)
        ensures
            r@ == unified_of(self@),
    {
        let flags = chars_of(self.quality_flags.as_str());
        let mut marks: Vec<char> = Vec::new();
        let mut i: usize = 0;
        assert(flags@.take(0) =~= Seq::<char>::empty());
        while i < flags.len()
            invariant
                i <= flags.len(),
                marks@ == distinct_marks(flags@.take(i as int)),
            decreases flags.len() - i,
        {
            proof {
                let next = flags@.take(i as int + 1);
                assert(next.drop_last() =~= flags@.take(i as int));
            }
            if !contains_char(&marks, flags[i]) {
                marks.push(flags[i]);
            }
            i += 1;
        }
        assert(flags@.take(flags.len() as int) =~= flags@);
        WeatherRecord::new(
            self.station_id,
            self.station_name.clone(),
            self.date,
            self.latitude,
            self.longitude,
            value_if_present(self.min_temp),
            value_if_present(self.max_temp),
            value_if_present(self.avg_temp),
            None,
            None,
            Some(crate::utils::text::string_of(&marks)),
            None,
            None,
        )
    }

    /// The maximum less the minimum, in tenths of a degree.
    pub fn temperature_range(&self) -> (r: i64)
        ensures
            r == self.max_temp - self.min_temp,
    {
        self.max_temp as i64 - self.min_temp as i64
    }

    /// All three flags are the mark for valid.
    pub fn has_valid_data(&self) -> (r: bool)
        ensures
            r == (self.quality_flags@ == "000"@),
    {
        let v = chars_of(self.quality_flags.as_str());
        equals_str(&v, "000")
    }

    pub fn has_suspect_data(&self) -> (r: bool)
        ensures
            r == self.quality_flags@.contains('1'),
    {
        let v = chars_of(self.quality_flags.as_str());
        contains_char(&v, '1')
    }

    pub fn has_missing_data(&self) -> (r: bool)
        ensures
            r == self.quality_flags@.contains('9'),
    {
        let v = chars_of(self.quality_flags.as_str());
        contains_char(&v, '9')
    }

    pub fn is_complete(&self) -> (r: bool)
        ensures
            r == !self.quality_flags@.contains('9'),
    {
        !self.has_missing_data()
    }
}

/// Collects the fields of a consolidated record one by one.
pub struct ConsolidatedRecordBuilder {
    station_id: Option<u32>,
    station_name: Option<String>,
    date: Option<Date>,
    latitude: Option<Coordinate>,
    longitude: Option<Coordinate>,
    min_temp: Option<i32>,
    max_temp: Option<i32>,
    avg_temp: Option<i32>,
    quality_flags: Option<String>,
}

/// What a builder has been given so far.
pub struct ConsolidatedBuilderView {
    pub station_id: Option<u32>,
    pub station_name: Option<Seq<char>>,
    pub date: Option<Date>,
    pub latitude: Option<Coordinate>,
    pub longitude: Option<Coordinate>,
    pub min_temp: Option<i32>,
    pub max_temp: Option<i32>,
    pub avg_temp: Option<i32>,
    pub quality_flags: Option<Seq<char>>,
}

impl ConsolidatedBuilderView {
    pub open spec fn empty() -> ConsolidatedBuilderView {
        ConsolidatedBuilderView {
            station_id: None,
            station_name: None,
            date: None,
            latitude: None,
            longitude: None,
            min_temp: None,
            max_temp: None,
            avg_temp: None,
            quality_flags: None,
        }
    }

    /// The first field that has not been given, if any.
    pub open spec fn missing_field(self) -> Option<Seq<char>> {
        if self.station_id is None {
            Some("station_id"@)
        } else if self.station_name is None {
            Some("station_name"@)
        } else if self.date is None {
            Some("date"@)
        } else if self.latitude is None {
            Some("latitude"@)
        } else if self.longitude is None {
            Some("longitude"@)
        } else if self.min_temp is None {
            Some("min_temp"@)
        } else if self.max_temp is None {
            Some("max_temp"@)
        } else if self.avg_temp is None {
            Some("avg_temp"@)
        } else if self.quality_flags is None {
            Some("quality_flags"@)
        } else {
            None
        }
    }

    pub open spec fn record(self) -> ConsolidatedView {
        ConsolidatedView {
            station_id: self.station_id->0,
            station_name: self.station_name->0,
            date: self.date->0,
            latitude: self.latitude->0,
            longitude: self.longitude->0,
            min_temp: self.min_temp->0,
            max_temp: self.max_temp->0,
            avg_temp: self.avg_temp->0,
            quality_flags: self.quality_flags->0,
        }
    }
}

impl View for ConsolidatedRecordBuilder {
    type V = ConsolidatedBuilderView;

    closed spec fn view(&self) -> ConsolidatedBuilderView {
        ConsolidatedBuilderView {
            station_id: self.station_id,
            station_name: text_view(self.station_name),
            date: self.date,
            latitude: self.latitude,
            longitude: self.longitude,
            min_temp: self.min_temp,
            max_temp: self.max_temp,
            avg_temp: self.avg_temp,
            quality_flags: text_view(self.quality_flags),
        }
    }
}

impl ConsolidatedRecordBuilder {
    pub fn new() -> (b: ConsolidatedRecordBuilder)
        ensures
            b@ == ConsolidatedBuilderView::empty(),
    {
        ConsolidatedRecordBuilder {
            station_id: None,
            station_name: None,
            date: None,
            latitude: None,
            longitude: None,
            min_temp: None,
            max_temp: None,
            avg_temp: None,
            quality_flags: None,
        }
    }

    pub fn station_id(self, id: u32) -> (b: ConsolidatedRecordBuilder)
        ensures
            b@ == (ConsolidatedBuilderView { station_id: Some(id), ..self@ }),
    {
        let mut b = self;
        b.station_id = Some(id);
        b
    }

    pub fn station_name(self, name: String) -> (b: ConsolidatedRecordBuilder)
        ensures
            b@ == (ConsolidatedBuilderView { station_name: Some(name@), ..self@ }),
    {
        let mut b = self;
        b.station_name = Some(name);
        b
    }

    pub fn date(self, date: Date) -> (b: ConsolidatedRecordBuilder)
        ensures
            b@ == (ConsolidatedBuilderView { date: Some(date), ..self@ }),
    {
        let mut b = self;
        b.date = Some(date);
        b
    }

    pub fn coordinates(self, latitude: Coordinate, longitude: Coordinate) -> (b:
        ConsolidatedRecordBuilder)
        ensures
            b@ == (ConsolidatedBuilderView {
                latitude: Some(latitude),
                longitude: Some(longitude),
                ..self@
            }),
    {
        let mut b = self;
        b.latitude = Some(latitude);
        b.longitude = Some(longitude);
        b
    }

    pub fn temperatures(self, min: i32, avg: i32, max: i32) -> (b: ConsolidatedRecordBuilder)
        ensures
            b@ == (ConsolidatedBuilderView {
                min_temp: Some(min),
                avg_temp: Some(avg),
                max_temp: Some(max),
                ..self@
            }),
    {
        let mut b = self;
        b.min_temp = Some(min);
        b.avg_temp = Some(avg);
        b.max_temp = Some(max);
        b
    }

    pub fn quality_flags(self, flags: String) -> (b: ConsolidatedRecordBuilder)
        ensures
            b@ == (ConsolidatedBuilderView { quality_flags: Some(flags@), ..self@ }),
    {
        let mut b = self;
        b.quality_flags = Some(flags);
        b
    }

    /// The record of the fields given: it needs every field, its
    /// temperatures in order and each field in its range.
    pub fn build(self) -> (r: Result<ConsolidatedRecord, ProcessingError>)
        ensures
            match r {
                Ok(rec) => {
                    &&& self@.missing_field().is_none()
                    &&& rec@ == self@.record()
                    &&& rec@.temperatures_ordered()
                    &&& rec@.field_out_of_range().is_none()
                },
                Err(e) => {
                    if self@.missing_field() is Some {
                        e matches ProcessingError::MissingData(field) && Some(field@)
                            == self@.missing_field()
                    } else if !self@.record().temperatures_ordered() {
                        e is TemperatureValidation
                    } else {
                        e matches ProcessingError::Validation(field) && Some(field@)
                            == self@.record().field_out_of_range()
                    }
                },
            },
    {
        let station_id = match self.station_id {
            Some(v) => v,
            None => {
                return Err(ProcessingError::MissingData(String::from_str("station_id")));
            },
        };
        let station_name = match self.station_name {
            Some(v) => v,
            None => {
                return Err(ProcessingError::MissingData(String::from_str("station_name")));
            },
        };
        let date = match self.date {
            Some(v) => v,
            None => {
                return Err(ProcessingError::MissingData(String::from_str("date")));
            },
        };
        let latitude = match self.latitude {
            Some(v) => v,
            None => {
                return Err(ProcessingError::MissingData(String::from_str("latitude")));
            },
        };
        let longitude = match self.longitude {
            Some(v) => v,
            None => {
                return Err(ProcessingError::MissingData(String::from_str("longitude")));
            },
        };
        let min_temp = match self.min_temp {
            Some(v) => v,
            None => {
                return Err(ProcessingError::MissingData(String::from_str("min_temp")));
            },
        };
        let max_temp = match self.max_temp {
            Some(v) => v,
            None => {
                return Err(ProcessingError::MissingData(String::from_str("max_temp")));
            },
        };
        let avg_temp = match self.avg_temp {
            Some(v) => v,
            None => {
                return Err(ProcessingError::MissingData(String::from_str("avg_temp")));
            },
        };
        let quality_flags = match self.quality_flags {
            Some(v) => v,
            None => {
                return Err(ProcessingError::MissingData(String::from_str("quality_flags")));
            },
        };
        let record = ConsolidatedRecord::new(
            station_id,
            station_name,
            date,
            latitude,
            longitude,
            min_temp,
            max_temp,
            avg_temp,
            quality_flags,
        );
        match record.validate_relationships() {
            Ok(()) => Ok(record),
            Err(e) => Err(e),
        }
    }
}

} // verus!
