//! The unified record of one station and day, its physical validation and
//! its composite quality.

use vstd::prelude::*;
use vstd::string::*;
use crate::error::ProcessingError;
use crate::models::date::Date;
use crate::models::station::{latitude_in_range, latitude_ok, longitude_in_range, longitude_ok};
use crate::utils::coordinates::Coordinate;
use crate::utils::text::{chars_of, contains_char, equals_str};

verus! {

/// Plausibility of a value against fixed physical ranges.
#[derive(Debug, Clone, Copy, PartialEq, Eq, Structural)]
pub enum PhysicalValidity {
    /// Within the usual physical limits.
    Valid,
    /// Unusual, but physically possible.
    Suspect,
    /// Physically impossible.
    Invalid,
}

/// The assessment that a text names.
pub open spec fn validity_of_name(s: Seq<char>) -> Option<PhysicalValidity> {
    if s == "Valid"@ {
        Some(PhysicalValidity::Valid)
    } else if s == "Suspect"@ {
        Some(PhysicalValidity::Suspect)
    } else if s == "Invalid"@ {
        Some(PhysicalValidity::Invalid)
    } else {
        None
    }
}

impl PhysicalValidity {
    /// Position in the order Valid < Suspect < Invalid.
    pub open spec fn rank(self) -> int {
        match self {
            PhysicalValidity::Valid => 0,
            PhysicalValidity::Suspect => 1,
            PhysicalValidity::Invalid => 2,
        }
    }

    /// The name under which the assessment is written out.
    pub open spec fn name(self) -> Seq<char> {
        match self {
            PhysicalValidity::Valid => "Valid"@,
            PhysicalValidity::Suspect => "Suspect"@,
            PhysicalValidity::Invalid => "Invalid"@,
        }
    }

    /// Reads an assessment from its name.
    pub fn parse(s: &str) -> (r: Option<PhysicalValidity>)
        ensures
            r == validity_of_name(s@),
    {
        let v = chars_of(s);
        if equals_str(&v, "Valid") {
            Some(PhysicalValidity::Valid)
        } else if equals_str(&v, "Suspect") {
            Some(PhysicalValidity::Suspect)
        } else if equals_str(&v, "Invalid") {
            Some(PhysicalValidity::Invalid)
        } else {
            None
        }
    }

    /// The name under which the assessment is written out.
    pub fn as_str(&self) -> (s: &'static str)
        ensures
            s@ == self.name(),
    {
        match self {
            PhysicalValidity::Valid => "Valid",
            PhysicalValidity::Suspect => "Suspect",
            PhysicalValidity::Invalid => "Invalid",
        }
    }

    /// The worse of two assessments.
    pub fn worst(self, other: PhysicalValidity) -> (r: PhysicalValidity)
        ensures
            r == worse_of(self, other),
    {
        match (self, other) {
            (PhysicalValidity::Invalid, _) => PhysicalValidity::Invalid,
            (_, PhysicalValidity::Invalid) => PhysicalValidity::Invalid,
            (PhysicalValidity::Suspect, _) => PhysicalValidity::Suspect,
            (_, PhysicalValidity::Suspect) => PhysicalValidity::Suspect,
            _ => PhysicalValidity::Valid,
        }
    }
}

/// The assessment of higher rank.
pub open spec fn worse_of(a: PhysicalValidity, b: PhysicalValidity) -> PhysicalValidity {
    if a.rank() >= b.rank() {
        a
    } else {
        b
    }
}

/// Writing an assessment out and reading it back gives the assessment.
pub proof fn lemma_validity_name_round_trip(v: PhysicalValidity)
    ensures
        validity_of_name(v.name()) == Some(v),
{
    reveal_strlit("Valid");
    reveal_strlit("Suspect");
    reveal_strlit("Invalid");
    assert("Valid"@.len() == 5 && "Suspect"@.len() == 7 && "Invalid"@.len() == 7);
    assert("Suspect"@[0] == 'S' && "Invalid"@[0] == 'I');
}

/// The joint quality of a metric, from the provider's flag and this library's
/// plausibility check.
#[derive(Debug, Clone, Copy, PartialEq, Eq, Structural)]
pub enum DataQuality {
    /// Flagged valid and physically valid.
    Valid,
    /// Flagged suspect, physically valid.
    SuspectOriginal,
    /// Flagged valid, physically suspect.
    SuspectRange,
    /// Flagged suspect and physically suspect.
    SuspectBoth,
    /// Physically impossible.
    Invalid,
    /// Flagged missing.
    Missing,
}

/// The composite quality of a metric whose flag does or does not hold the
/// marks for missing and for suspect, under a plausibility assessment.
pub open spec fn composite_quality(
    flag_missing: bool,
    flag_suspect: bool,
    validity: Option<PhysicalValidity>,
) -> DataQuality {
    if flag_missing {
        DataQuality::Missing
    } else if validity == Some(PhysicalValidity::Invalid) {
        DataQuality::Invalid
    } else if flag_suspect && validity == Some(PhysicalValidity::Suspect) {
        DataQuality::SuspectBoth
    } else if flag_suspect {
        DataQuality::SuspectOriginal
    } else if validity == Some(PhysicalValidity::Suspect) {
        DataQuality::SuspectRange
    } else {
        DataQuality::Valid
    }
}

/// Every pair of flag and assessment has exactly one composite quality, the
/// one that the first matching row of the table names: a flag with the mark
/// for missing gives Missing whatever the assessment; otherwise an impossible
/// value gives Invalid; otherwise the flag's mark for suspect and the
/// assessment Suspect give SuspectBoth together, SuspectOriginal and
/// SuspectRange alone, and Valid where neither holds.
pub proof fn lemma_composite_quality_total(
    flag_missing: bool,
    flag_suspect: bool,
    validity: Option<PhysicalValidity>,
)
    ensures
        ({
            let q = composite_quality(flag_missing, flag_suspect, validity);
            let invalid = validity == Some(PhysicalValidity::Invalid);
            let suspect = validity == Some(PhysicalValidity::Suspect);
            &&& (q == DataQuality::Missing <==> flag_missing)
            &&& (q == DataQuality::Invalid <==> !flag_missing && invalid)
            &&& (q == DataQuality::SuspectBoth <==> !flag_missing && flag_suspect && suspect)
            &&& (q == DataQuality::SuspectOriginal <==> !flag_missing && flag_suspect && !invalid
                && !suspect)
            &&& (q == DataQuality::SuspectRange <==> !flag_missing && !flag_suspect && suspect)
            &&& (q == DataQuality::Valid <==> !flag_missing && !flag_suspect && !invalid
                && !suspect)
        }),
{
}

fn composite(flag_missing: bool, flag_suspect: bool, validity: Option<PhysicalValidity>) -> (q:
    DataQuality)
    ensures
        q == composite_quality(flag_missing, flag_suspect, validity),
{
    let invalid = match validity {
        Some(PhysicalValidity::Invalid) => true,
        _ => false,
    };
    let suspect = match validity {
        Some(PhysicalValidity::Suspect) => true,
        _ => false,
    };
    if flag_missing {
        DataQuality::Missing
    } else if invalid {
        DataQuality::Invalid
    } else if flag_suspect && suspect {
        DataQuality::SuspectBoth
    } else if flag_suspect {
        DataQuality::SuspectOriginal
    } else if suspect {
        DataQuality::SuspectRange
    } else {
        DataQuality::Valid
    }
}

/// Limits in tenths of the unit: degrees Celsius, millimetres, metres per second.
pub const TEMP_IMPOSSIBLE_LOW: i32 = -900;

pub const TEMP_IMPOSSIBLE_HIGH: i32 = 600;

pub const TEMP_SUSPECT_LOW: i32 = -350;

pub const TEMP_SUSPECT_HIGH: i32 = 450;

pub const PRECIP_IMPOSSIBLE_HIGH: i32 = 20_000;

pub const PRECIP_SUSPECT_HIGH: i32 = 5_000;

pub const WIND_IMPOSSIBLE_HIGH: i32 = 1_200;

pub const WIND_SUSPECT_HIGH: i32 = 500;

/// By how many tenths of a degree minimum, average and maximum may cross.
pub const RELATION_TOLERANCE: i32 = 10;

/// Accepted ranges of a record's fields, in tenths of the unit.
pub const RANGE_TEMP_LOW: i32 = -500;

pub const RANGE_TEMP_HIGH: i32 = 500;

pub const RANGE_PRECIP_HIGH: i32 = 10_000;

pub const RANGE_WIND_HIGH: i32 = 1_000;

/// Plausibility of one temperature: impossible outside -90 to 60 degrees,
/// suspect outside -35 to 45 degrees.
pub open spec fn temperature_class(tenths: i32) -> PhysicalValidity {
    if tenths < TEMP_IMPOSSIBLE_LOW || tenths > TEMP_IMPOSSIBLE_HIGH {
        PhysicalValidity::Invalid
    } else if tenths < TEMP_SUSPECT_LOW || tenths > TEMP_SUSPECT_HIGH {
        PhysicalValidity::Suspect
    } else {
        PhysicalValidity::Valid
    }
}

/// Plausibility of a precipitation: impossible outside 0 to 2000 mm, suspect
/// above 500 mm.
pub open spec fn precipitation_class(tenths: i32) -> PhysicalValidity {
    if tenths < 0 || tenths > PRECIP_IMPOSSIBLE_HIGH {
        PhysicalValidity::Invalid
    } else if tenths > PRECIP_SUSPECT_HIGH {
        PhysicalValidity::Suspect
    } else {
        PhysicalValidity::Valid
    }
}

/// Plausibility of a wind speed: impossible outside 0 to 120 m/s, suspect
/// above 50 m/s.
pub open spec fn wind_class(tenths: i32) -> PhysicalValidity {
    if tenths < 0 || tenths > WIND_IMPOSSIBLE_HIGH {
        PhysicalValidity::Invalid
    } else if tenths > WIND_SUSPECT_HIGH {
        PhysicalValidity::Suspect
    } else {
        PhysicalValidity::Valid
    }
}

/// The worse of two optional assessments; an absent one does not count.
pub open spec fn worse_of_options(a: Option<PhysicalValidity>, b: Option<PhysicalValidity>)
    -> Option<PhysicalValidity> {
    match (a, b) {
        (Some(x), Some(y)) => Some(worse_of(x, y)),
        (Some(x), None) => Some(x),
        (None, y) => y,
    }
}

pub open spec fn class_of_temperature(slot: Option<i32>) -> Option<PhysicalValidity> {
    match slot {
        Some(t) => Some(temperature_class(t)),
        None => None,
    }
}

/// The weather of one station on one day. Values are in tenths of their unit.
#[derive(Debug, Clone)]
pub struct WeatherRecord {
    pub station_id: u32,
    pub station_name: String,
    pub date: Date,
    pub latitude: Coordinate,
    pub longitude: Coordinate,
    /// Tenths of a degree Celsius.
    pub temp_min: Option<i32>,
    pub temp_max: Option<i32>,
    pub temp_avg: Option<i32>,
    /// Tenths of a millimetre.
    pub precipitation: Option<i32>,
    /// Tenths of a metre per second.
    pub wind_speed: Option<i32>,
    /// The provider's flags, as characters out of 0, 1 and 9.
    pub temp_quality: Option<String>,
    pub precip_quality: Option<String>,
    pub wind_quality: Option<String>,
    /// The plausibility of the values of each metric family.
    pub temp_validation: Option<PhysicalValidity>,
    pub precip_validation: Option<PhysicalValidity>,
    pub wind_validation: Option<PhysicalValidity>,
}

/// A record with its texts as sequences of characters.
pub struct WeatherRecordView {
    pub station_id: u32,
    pub station_name: Seq<char>,
    pub date: Date,
    pub latitude: Coordinate,
    pub longitude: Coordinate,
    pub temp_min: Option<i32>,
    pub temp_max: Option<i32>,
    pub temp_avg: Option<i32>,
    pub precipitation: Option<i32>,
    pub wind_speed: Option<i32>,
    pub temp_quality: Option<Seq<char>>,
    pub precip_quality: Option<Seq<char>>,
    pub wind_quality: Option<Seq<char>>,
    pub temp_validation: Option<PhysicalValidity>,
    pub precip_validation: Option<PhysicalValidity>,
    pub wind_validation: Option<PhysicalValidity>,
}

/// The characters of an optional text.
pub open spec fn text_view(s: Option<String>) -> Option<Seq<char>> {
    match s {
        Some(s) => Some(s@),
        None => None,
    }
}

impl View for WeatherRecord {
    type V = WeatherRecordView;

    open spec fn view(&self) -> WeatherRecordView {
        WeatherRecordView {
            station_id: self.station_id,
            station_name: self.station_name@,
            date: self.date,
            latitude: self.latitude,
            longitude: self.longitude,
            temp_min: self.temp_min,
            temp_max: self.temp_max,
            temp_avg: self.temp_avg,
            precipitation: self.precipitation,
            wind_speed: self.wind_speed,
            temp_quality: text_view(self.temp_quality),
            precip_quality: text_view(self.precip_quality),
            wind_quality: text_view(self.wind_quality),
            temp_validation: self.temp_validation,
            precip_validation: self.precip_validation,
            wind_validation: self.wind_validation,
        }
    }
}

/// Whether a flag is there and holds the character.
pub open spec fn flag_has(flag: Option<Seq<char>>, c: char) -> bool {
    flag matches Some(q) && q.contains(c)
}

/// Whether a flag is there and is the one character.
pub open spec fn flag_is(flag: Option<Seq<char>>, c: char) -> bool {
    flag == Some(seq![c])
}

/// Whether a flag, if there, is the mark for valid.
pub open spec fn flag_clean(flag: Option<Seq<char>>) -> bool {
    flag is Some ==> flag_is(flag, '0')
}

impl WeatherRecordView {
    pub open spec fn has_temperature_data(self) -> bool {
        self.temp_min is Some || self.temp_max is Some || self.temp_avg is Some
    }

    pub open spec fn has_complete_temperature(self) -> bool {
        self.temp_min is Some && self.temp_max is Some && self.temp_avg is Some
    }

    /// At least one of the five values is there.
    pub open spec fn has_any_metric(self) -> bool {
        self.has_temperature_data() || self.precipitation is Some || self.wind_speed is Some
    }

    /// The worst class among the temperatures that are there.
    pub open spec fn temperature_validity(self) -> Option<PhysicalValidity> {
        worse_of_options(
            worse_of_options(
                class_of_temperature(self.temp_min),
                class_of_temperature(self.temp_max),
            ),
            class_of_temperature(self.temp_avg),
        )
    }

    pub open spec fn precipitation_validity(self) -> Option<PhysicalValidity> {
        match self.precipitation {
            Some(p) => Some(precipitation_class(p)),
            None => None,
        }
    }

    pub open spec fn wind_validity(self) -> Option<PhysicalValidity> {
        match self.wind_speed {
            Some(w) => Some(wind_class(w)),
            None => None,
        }
    }

    /// The record with the three assessments computed from its values.
    pub open spec fn validated(self) -> WeatherRecordView {
        WeatherRecordView {
            temp_validation: self.temperature_validity(),
            precip_validation: self.precipitation_validity(),
            wind_validation: self.wind_validity(),
            ..self
        }
    }

    /// With all three temperatures there: the minimum is at most the average
    /// and the average at most the maximum, each within one degree.
    pub open spec fn temperatures_ordered(self) -> bool {
        self.has_complete_temperature() ==> !self.min_exceeds_avg() && !self.avg_exceeds_max()
    }

    pub open spec fn min_exceeds_avg(self) -> bool {
        self.has_complete_temperature() && self.temp_min->0 > self.temp_avg->0
            + RELATION_TOLERANCE
    }

    pub open spec fn avg_exceeds_max(self) -> bool {
        self.has_complete_temperature() && self.temp_avg->0 > self.temp_max->0
            + RELATION_TOLERANCE
    }

    /// The first field that lies outside its accepted range, if any: the
    /// position on the globe, temperatures from -50 to 50 degrees,
    /// precipitation up to 1000 mm, wind speed up to 100 m/s.
    pub open spec fn field_out_of_range(self) -> Option<Seq<char>> {
        if !latitude_in_range(self.latitude) {
            Some("latitude"@)
        } else if !longitude_in_range(self.longitude) {
            Some("longitude"@)
        } else if self.temp_min matches Some(t) && !(RANGE_TEMP_LOW <= t <= RANGE_TEMP_HIGH) {
            Some("temp_min"@)
        } else if self.temp_max matches Some(t) && !(RANGE_TEMP_LOW <= t <= RANGE_TEMP_HIGH) {
            Some("temp_max"@)
        } else if self.temp_avg matches Some(t) && !(RANGE_TEMP_LOW <= t <= RANGE_TEMP_HIGH) {
            Some("temp_avg"@)
        } else if self.precipitation matches Some(p) && !(0 <= p <= RANGE_PRECIP_HIGH) {
            Some("precipitation"@)
        } else if self.wind_speed matches Some(w) && !(0 <= w <= RANGE_WIND_HIGH) {
            Some("wind_speed"@)
        } else {
            None
        }
    }

    /// Every flag that is there is the mark for valid.
    pub open spec fn all_flags_clean(self) -> bool {
        flag_clean(self.temp_quality) && flag_clean(self.precip_quality) && flag_clean(
            self.wind_quality,
        )
    }

    pub open spec fn has_suspect_data(self) -> bool {
        flag_has(self.temp_quality, '1') || flag_has(self.precip_quality, '1') || flag_has(
            self.wind_quality,
            '1',
        )
    }

    pub open spec fn has_missing_data(self) -> bool {
        flag_has(self.temp_quality, '9') || flag_has(self.precip_quality, '9') || flag_has(
            self.wind_quality,
            '9',
        )
    }

    pub open spec fn temperature_quality(self) -> DataQuality {
        composite_quality(
            flag_has(self.temp_quality, '9'),
            flag_has(self.temp_quality, '1'),
            self.temp_validation,
        )
    }

    pub open spec fn precipitation_quality(self) -> DataQuality {
        composite_quality(
            flag_is(self.precip_quality, '9'),
            flag_is(self.precip_quality, '1'),
            self.precip_validation,
        )
    }

    pub open spec fn wind_quality_assessment(self) -> DataQuality {
        composite_quality(
            flag_is(self.wind_quality, '9'),
            flag_is(self.wind_quality, '1'),
            self.wind_validation,
        )
    }

    /// The names of the metric families that have a value.
    pub open spec fn available_metrics(self) -> Seq<Seq<char>> {
        (if self.has_temperature_data() {
            seq!["temperature"@]
        } else {
            Seq::<Seq<char>>::empty()
        }) + (if self.precipitation is Some {
            seq!["precipitation"@]
        } else {
            Seq::<Seq<char>>::empty()
        }) + (if self.wind_speed is Some {
            seq!["wind_speed"@]
        } else {
            Seq::<Seq<char>>::empty()
        })
    }
}

/// Validating a record twice gives what validating it once gives.
pub proof fn lemma_validation_idempotent(r: WeatherRecordView)
    ensures
        r.validated().validated() == r.validated(),
{
}

/// A record whose temperatures are in order holds a minimum of at most the
/// average plus one degree and an average of at most the maximum plus one
/// degree, whenever all three are there.
pub proof fn lemma_ordered_temperatures(r: WeatherRecordView)
    requires
        r.temperatures_ordered(),
        r.has_complete_temperature(),
    ensures
        r.temp_min->0 <= r.temp_avg->0 + 10,
        r.temp_avg->0 <= r.temp_max->0 + 10,
{
}

fn temperature_class_of(tenths: i32) -> (r: PhysicalValidity)
    ensures
        r == temperature_class(tenths),
{
    if tenths < TEMP_IMPOSSIBLE_LOW || tenths > TEMP_IMPOSSIBLE_HIGH {
        PhysicalValidity::Invalid
    } else if tenths < TEMP_SUSPECT_LOW || tenths > TEMP_SUSPECT_HIGH {
        PhysicalValidity::Suspect
    } else {
        PhysicalValidity::Valid
    }
}

fn worse_option(a: Option<PhysicalValidity>, b: Option<PhysicalValidity>) -> (r: Option<
    PhysicalValidity,
>)
    ensures
        r == worse_of_options(a, b),
{
    match (a, b) {
        (Some(x), Some(y)) => Some(x.worst(y)),
        (Some(x), None) => Some(x),
        (None, y) => y,
    }
}

fn slot_class(slot: Option<i32>) -> (r: Option<PhysicalValidity>)
    ensures
        r == class_of_temperature(slot),
{
    match slot {
        Some(t) => Some(temperature_class_of(t)),
        None => None,
    }
}

fn flag_contains(flag: &Option<String>, c: char) -> (r: bool)
    ensures
        r == flag_has(text_view(*flag), c),
{
    match flag {
        Some(q) => {
            let v = chars_of(q.as_str());
            contains_char(&v, c)
        },
        None => false,
    }
}

fn flag_equals(flag: &Option<String>, c: char) -> (r: bool)
    ensures
        r == flag_is(text_view(*flag), c),
{
    match flag {
        Some(q) => {
            let v = chars_of(q.as_str());
            let r = v.len() == 1 && v[0] == c;
            proof {
                if r {
                    assert(q@ =~= seq![c]);
                }
            }
            r
        },
        None => false,
    }
}

fn flag_is_clean(flag: &Option<String>) -> (r: bool)
    ensures
        r == flag_clean(text_view(*flag)),
{
    flag.is_none() || flag_equals(flag, '0')
}

fn in_temperature_range(slot: Option<i32>) -> (r: bool)
    ensures
        r == !(slot matches Some(t) && !(RANGE_TEMP_LOW <= t <= RANGE_TEMP_HIGH)),
{
    match slot {
        Some(t) => RANGE_TEMP_LOW <= t && t <= RANGE_TEMP_HIGH,
        None => true,
    }
}

/// A copy of an optional text.
pub fn duplicate_text(s: &Option<String>) -> (r: Option<String>)
    ensures
        text_view(r) == text_view(*s),
{
    match s {
        Some(t) => Some(t.clone()),
        None => None,
    }
}

impl WeatherRecord {
    /// A record with the given values and with its physical validation done.
    pub fn new(
        station_id: u32,
        station_name: String,
        date: Date,
        latitude: Coordinate,
        longitude: Coordinate,
        temp_min: Option<i32>,
        temp_max: Option<i32>,
        temp_avg: Option<i32>,
        precipitation: Option<i32>,
        wind_speed: Option<i32>,
        temp_quality: Option<String>,
        precip_quality: Option<String>,
        wind_quality: Option<String>,
    ) -> (r: WeatherRecord)
        ensures
            r@ == (WeatherRecordView {
                station_id,
                station_name: station_name@,
                date,
                latitude,
                longitude,
                temp_min,
                temp_max,
                temp_avg,
                precipitation,
                wind_speed,
                temp_quality: text_view(temp_quality),
                precip_quality: text_view(precip_quality),
                wind_quality: text_view(wind_quality),
                temp_validation: None,
                precip_validation: None,
                wind_validation: None,
            }).validated(),
    {
        let mut record = WeatherRecord {
            station_id,
            station_name,
            date,
            latitude,
            longitude,
            temp_min,
            temp_max,
            temp_avg,
            precipitation,
            wind_speed,
            temp_quality,
            precip_quality,
            wind_quality,
            temp_validation: None,
            precip_validation: None,
            wind_validation: None,
        };
        record.perform_physical_validation();
        record
    }

    /// A record with the given values and assessments, taken as they are.
    pub fn new_raw(
        station_id: u32,
        station_name: String,
        date: Date,
        latitude: Coordinate,
        longitude: Coordinate,
        temp_min: Option<i32>,
        temp_max: Option<i32>,
        temp_avg: Option<i32>,
        precipitation: Option<i32>,
        wind_speed: Option<i32>,
        temp_quality: Option<String>,
        precip_quality: Option<String>,
        wind_quality: Option<String>,
        temp_validation: Option<PhysicalValidity>,
        precip_validation: Option<PhysicalValidity>,
        wind_validation: Option<PhysicalValidity>,
    ) -> (r: WeatherRecord)
        ensures
            r@ == (WeatherRecordView {
                station_id,
                station_name: station_name@,
                date,
                latitude,
                longitude,
                temp_min,
                temp_max,
                temp_avg,
                precipitation,
                wind_speed,
                temp_quality: text_view(temp_quality),
                precip_quality: text_view(precip_quality),
                wind_quality: text_view(wind_quality),
                temp_validation,
                precip_validation,
                wind_validation,
            }),
    {
        WeatherRecord {
            station_id,
            station_name,
            date,
            latitude,
            longitude,
            temp_min,
            temp_max,
            temp_avg,
            precipitation,
            wind_speed,
            temp_quality,
            precip_quality,
            wind_quality,
            temp_validation,
            precip_validation,
            wind_validation,
        }
    }

    pub fn builder() -> (b: WeatherRecordBuilder)
        ensures
            b@ == WeatherRecordBuilderView::empty(),
    {
        WeatherRecordBuilder::new()
    }

    /// A copy of the record.
    pub fn duplicate(&self) -> (r: WeatherRecord)
        ensures
            r@ == self@,
    {
        WeatherRecord {
            station_id: self.station_id,
            station_name: self.station_name.clone(),
            date: self.date,
            latitude: self.latitude,
            longitude: self.longitude,
            temp_min: self.temp_min,
            temp_max: self.temp_max,
            temp_avg: self.temp_avg,
            precipitation: self.precipitation,
            wind_speed: self.wind_speed,
            temp_quality: duplicate_text(&self.temp_quality),
            precip_quality: duplicate_text(&self.precip_quality),
            wind_quality: duplicate_text(&self.wind_quality),
            temp_validation: self.temp_validation,
            precip_validation: self.precip_validation,
            wind_validation: self.wind_validation,
        }
    }

    /// Checks the order of the temperatures, then the range of each field.
    pub fn validate_relationships(&self) -> (r: Result<(), ProcessingError>)
        ensures
            r is Ok <==> self@.temperatures_ordered() && self@.field_out_of_range().is_none(),
            r matches Err(e) ==> (if !self@.temperatures_ordered() {
                e is TemperatureValidation
            } else {
                e matches ProcessingError::Validation(field) && Some(field@)
                    == self@.field_out_of_range()
            }),
    {
        match (self.temp_min, self.temp_avg, self.temp_max) {
            (Some(min), Some(avg), Some(max)) => {
                if min as i64 > avg as i64 + RELATION_TOLERANCE as i64 {
                    return Err(
                        ProcessingError::TemperatureValidation {
                            message: String::from_str(
                                "Min temperature > Avg temperature (tolerance=1)",
                            ),
                        },
                    );
                }
                if avg as i64 > max as i64 + RELATION_TOLERANCE as i64 {
                    return Err(
                        ProcessingError::TemperatureValidation {
                            message: String::from_str(
                                "Avg temperature > Max temperature (tolerance=1)",
                            ),
                        },
                    );
                }
            },
            _ => {},
        }
        self.validate()
    }

    /// Checks that each field lies in its accepted range.
    pub fn validate(&self) -> (r: Result<(), ProcessingError>)
        ensures
            r is Ok <==> self@.field_out_of_range().is_none(),
            r matches Err(e) ==> e matches ProcessingError::Validation(field) && Some(field@)
                == self@.field_out_of_range(),
    {
        if !latitude_ok(self.latitude) {
            return Err(ProcessingError::Validation(String::from_str("latitude")));
        }
        if !longitude_ok(self.longitude) {
            return Err(ProcessingError::Validation(String::from_str("longitude")));
        }
        if !in_temperature_range(self.temp_min) {
            return Err(ProcessingError::Validation(String::from_str("temp_min")));
        }
        if !in_temperature_range(self.temp_max) {
            return Err(ProcessingError::Validation(String::from_str("temp_max")));
        }
        if !in_temperature_range(self.temp_avg) {
            return Err(ProcessingError::Validation(String::from_str("temp_avg")));
        }
        match self.precipitation {
            Some(p) => {
                if p < 0 || p > RANGE_PRECIP_HIGH {
                    return Err(ProcessingError::Validation(String::from_str("precipitation")));
                }
            },
            None => {},
        }
        match self.wind_speed {
            Some(w) => {
                if w < 0 || w > RANGE_WIND_HIGH {
                    return Err(ProcessingError::Validation(String::from_str("wind_speed")));
                }
            },
            None => {},
        }
        Ok(())
    }

    pub fn has_temperature_data(&self) -> (r: bool)
        ensures
            r == self@.has_temperature_data(),
    {
        self.temp_min.is_some() || self.temp_max.is_some() || self.temp_avg.is_some()
    }

    pub fn has_complete_temperature(&self) -> (r: bool)
        ensures
            r == self@.has_complete_temperature(),
    {
        self.temp_min.is_some() && self.temp_max.is_some() && self.temp_avg.is_some()
    }

    pub fn has_precipitation(&self) -> (r: bool)
        ensures
            r == self@.precipitation.is_some(),
    {
        self.precipitation.is_some()
    }

    pub fn has_wind_speed(&self) -> (r: bool)
        ensures
            r == self@.wind_speed.is_some(),
    {
        self.wind_speed.is_some()
    }

    /// Whether at least one of the five values is there.
    pub fn has_any_metric(&self) -> (r: bool)
        ensures
            r == self@.has_any_metric(),
    {
        self.has_temperature_data() || self.precipitation.is_some() || self.wind_speed.is_some()
    }

    /// The names of the metric families that have a value.
    pub fn available_metrics(&self) -> (r: Vec<&'static str>)
        ensures
            r@.map_values(|s: &'static str| s@) == self@.available_metrics(),
    {
        let mut metrics: Vec<&'static str> = Vec::new();
        if self.has_temperature_data() {
            metrics.push("temperature");
        }
        if self.has_precipitation() {
            metrics.push("precipitation");
        }
        if self.has_wind_speed() {
            metrics.push("wind_speed");
        }
        assert(metrics@.map_values(|s: &'static str| s@) =~= self@.available_metrics());
        metrics
    }

    /// How many of the three metric families have a value, and how many
    /// families there are.
    pub fn metric_coverage(&self) -> (r: (usize, usize))
        ensures
            r.0 == self@.available_metrics().len(),
            r.1 == 3,
    {
        (self.available_metrics().len(), 3)
    }

    /// The maximum less the minimum, in tenths of a degree.
    pub fn temperature_range(&self) -> (r: Option<i64>)
        ensures
            r == match (self.temp_min, self.temp_max) {
                (Some(min), Some(max)) => Some((max - min) as i64),
                _ => None::<i64>,
            },
    {
        match (self.temp_min, self.temp_max) {
            (Some(min), Some(max)) => Some(max as i64 - min as i64),
            _ => None,
        }
    }

    /// The temperature flag is the mark for valid.
    pub fn has_valid_temperature_data(&self) -> (r: bool)
        ensures
            r == flag_is(self@.temp_quality, '0'),
    {
        flag_equals(&self.temp_quality, '0')
    }

    pub fn has_valid_precipitation_data(&self) -> (r: bool)
        ensures
            r == flag_is(self@.precip_quality, '0'),
    {
        flag_equals(&self.precip_quality, '0')
    }

    pub fn has_valid_wind_data(&self) -> (r: bool)
        ensures
            r == flag_is(self@.wind_quality, '0'),
    {
        flag_equals(&self.wind_quality, '0')
    }

    /// Whether every flag that is there is the mark for valid.
    pub fn all_flags_clean(&self) -> (r: bool)
        ensures
            r == self@.all_flags_clean(),
    {
        flag_is_clean(&self.temp_quality) && flag_is_clean(&self.precip_quality) && flag_is_clean(
            &self.wind_quality,
        )
    }

    pub fn has_suspect_data(&self) -> (r: bool)
        ensures
            r == self@.has_suspect_data(),
    {
        flag_contains(&self.temp_quality, '1') || flag_contains(&self.precip_quality, '1')
            || flag_contains(&self.wind_quality, '1')
    }

    pub fn has_missing_data(&self) -> (r: bool)
        ensures
            r == self@.has_missing_data(),
    {
        flag_contains(&self.temp_quality, '9') || flag_contains(&self.precip_quality, '9')
            || flag_contains(&self.wind_quality, '9')
    }

    /// Computes the three assessments anew from the values of the record.
    pub fn perform_physical_validation(&mut self)
        ensures
            final(self)@ == old(self)@.validated(),
    {
        self.temp_validation = worse_option(
            worse_option(slot_class(self.temp_min), slot_class(self.temp_max)),
            slot_class(self.temp_avg),
        );
        self.precip_validation = match self.precipitation {
            Some(p) => Some(
                if p < 0 || p > PRECIP_IMPOSSIBLE_HIGH {
                    PhysicalValidity::Invalid
                } else if p > PRECIP_SUSPECT_HIGH {
                    PhysicalValidity::Suspect
                } else {
                    PhysicalValidity::Valid
                },
            ),
            None => None,
        };
        self.wind_validation = match self.wind_speed {
            Some(w) => Some(
                if w < 0 || w > WIND_IMPOSSIBLE_HIGH {
                    PhysicalValidity::Invalid
                } else if w > WIND_SUSPECT_HIGH {
                    PhysicalValidity::Suspect
                } else {
                    PhysicalValidity::Valid
                },
            ),
            None => None,
        };
    }

    /// The composite quality of the temperatures.
    pub fn assess_temperature_quality(&self) -> (q: DataQuality)
        ensures
            q == self@.temperature_quality(),
    {
        composite(
            flag_contains(&self.temp_quality, '9'),
            flag_contains(&self.temp_quality, '1'),
            self.temp_validation,
        )
    }

    /// The composite quality of the precipitation.
    pub fn assess_precipitation_quality(&self) -> (q: DataQuality)
        ensures
            q == self@.precipitation_quality(),
    {
        composite(
            flag_equals(&self.precip_quality, '9'),
            flag_equals(&self.precip_quality, '1'),
            self.precip_validation,
        )
    }

    /// The composite quality of the wind speed.
    pub fn assess_wind_quality(&self) -> (q: DataQuality)
        ensures
            q == self@.wind_quality_assessment(),
    {
        composite(
            flag_equals(&self.wind_quality, '9'),
            flag_equals(&self.wind_quality, '1'),
            self.wind_validation,
        )
    }

    /// Whether some metric is physically impossible.
    pub fn has_invalid_data(&self) -> (r: bool)
        ensures
            r == (self@.temperature_quality() == DataQuality::Invalid
                || self@.precipitation_quality() == DataQuality::Invalid
                || self@.wind_quality_assessment() == DataQuality::Invalid),
    {
        let t = self.assess_temperature_quality();
        let p = self.assess_precipitation_quality();
        let w = self.assess_wind_quality();
        t == DataQuality::Invalid || p == DataQuality::Invalid || w == DataQuality::Invalid
    }

    /// Whether every metric that was assessed is of composite quality Valid.
    pub fn has_high_quality_data(&self) -> (r: bool)
        ensures
            r == ((self@.temp_validation is None || self@.temperature_quality()
                == DataQuality::Valid) && (self@.precip_validation is None
                || self@.precipitation_quality() == DataQuality::Valid) && (
            self@.wind_validation is None || self@.wind_quality_assessment()
                == DataQuality::Valid)),
    {
        let temp_ok = self.temp_validation.is_none() || self.assess_temperature_quality()
            == DataQuality::Valid;
        let precip_ok = self.precip_validation.is_none() || self.assess_precipitation_quality()
            == DataQuality::Valid;
        let wind_ok = self.wind_validation.is_none() || self.assess_wind_quality()
            == DataQuality::Valid;
        temp_ok && precip_ok && wind_ok
    }
}

/// Collects the fields of a record one by one.
pub struct WeatherRecordBuilder {
    station_id: Option<u32>,
    station_name: Option<String>,
    date: Option<Date>,
    latitude: Option<Coordinate>,
    longitude: Option<Coordinate>,
    temp_min: Option<i32>,
    temp_max: Option<i32>,
    temp_avg: Option<i32>,
    precipitation: Option<i32>,
    wind_speed: Option<i32>,
    temp_quality: Option<String>,
    precip_quality: Option<String>,
    wind_quality: Option<String>,
}

/// What a builder has been given so far.
pub struct WeatherRecordBuilderView {
    pub station_id: Option<u32>,
    pub station_name: Option<Seq<char>>,
    pub date: Option<Date>,
    pub latitude: Option<Coordinate>,
    pub longitude: Option<Coordinate>,
    pub temp_min: Option<i32>,
    pub temp_max: Option<i32>,
    pub temp_avg: Option<i32>,
    pub precipitation: Option<i32>,
    pub wind_speed: Option<i32>,
    pub temp_quality: Option<Seq<char>>,
    pub precip_quality: Option<Seq<char>>,
    pub wind_quality: Option<Seq<char>>,
}

impl WeatherRecordBuilderView {
    pub open spec fn empty() -> WeatherRecordBuilderView {
        WeatherRecordBuilderView {
            station_id: None,
            station_name: None,
            date: None,
            latitude: None,
            longitude: None,
            temp_min: None,
            temp_max: None,
            temp_avg: None,
            precipitation: None,
            wind_speed: None,
            temp_quality: None,
            precip_quality: None,
            wind_quality: None,
        }
    }

    /// The first required field that has not been given, if any.
    pub open spec fn missing_field(self) -> Option<Seq<char>> {
        if self.station_id is None {
            Some("station_id"@)
        } else if self.station_name is None {
            Some("station_name"@)
        } else if self.date is None {
            Some("date"@)
        } else if self.latitude is None {
            Some("latitude"@)
        } else if self.longitude is None {
            Some("longitude"@)
        } else {
            None
        }
    }

    /// The record that the given fields make, with its validation done.
    pub open spec fn record(self) -> WeatherRecordView {
        (WeatherRecordView {
            station_id: self.station_id->0,
            station_name: self.station_name->0,
            date: self.date->0,
            latitude: self.latitude->0,
            longitude: self.longitude->0,
            temp_min: self.temp_min,
            temp_max: self.temp_max,
            temp_avg: self.temp_avg,
            precipitation: self.precipitation,
            wind_speed: self.wind_speed,
            temp_quality: self.temp_quality,
            precip_quality: self.precip_quality,
            wind_quality: self.wind_quality,
            temp_validation: None,
            precip_validation: None,
            wind_validation: None,
        }).validated()
    }
}

impl View for WeatherRecordBuilder {
    type V = WeatherRecordBuilderView;

    closed spec fn view(&self) -> WeatherRecordBuilderView {
        WeatherRecordBuilderView {
            station_id: self.station_id,
            station_name: text_view(self.station_name),
            date: self.date,
            latitude: self.latitude,
            longitude: self.longitude,
            temp_min: self.temp_min,
            temp_max: self.temp_max,
            temp_avg: self.temp_avg,
            precipitation: self.precipitation,
            wind_speed: self.wind_speed,
            temp_quality: text_view(self.temp_quality),
            precip_quality: text_view(self.precip_quality),
            wind_quality: text_view(self.wind_quality),
        }
    }
}

impl WeatherRecordBuilder {
    pub fn new() -> (b: WeatherRecordBuilder)
        ensures
            b@ == WeatherRecordBuilderView::empty(),
    {
        WeatherRecordBuilder {
            station_id: None,
            station_name: None,
            date: None,
            latitude: None,
            longitude: None,
            temp_min: None,
            temp_max: None,
            temp_avg: None,
            precipitation: None,
            wind_speed: None,
            temp_quality: None,
            precip_quality: None,
            wind_quality: None,
        }
    }

    pub fn station_id(self, id: u32) -> (b: WeatherRecordBuilder)
        ensures
            b@ == (WeatherRecordBuilderView { station_id: Some(id), ..self@ }),
    {
        let mut b = self;
        b.station_id = Some(id);
        b
    }

    pub fn station_name(self, name: String) -> (b: WeatherRecordBuilder)
        ensures
            b@ == (WeatherRecordBuilderView { station_name: Some(name@), ..self@ }),
    {
        let mut b = self;
        b.station_name = Some(name);
        b
    }

    pub fn date(self, date: Date) -> (b: WeatherRecordBuilder)
        ensures
            b@ == (WeatherRecordBuilderView { date: Some(date), ..self@ }),
    {
        let mut b = self;
        b.date = Some(date);
        b
    }

    pub fn coordinates(self, latitude: Coordinate, longitude: Coordinate) -> (b:
        WeatherRecordBuilder)
        ensures
            b@ == (WeatherRecordBuilderView {
                latitude: Some(latitude),
                longitude: Some(longitude),
                ..self@
            }),
    {
        let mut b = self;
        b.latitude = Some(latitude);
        b.longitude = Some(longitude);
        b
    }

    pub fn temp_min(self, temp: i32) -> (b: WeatherRecordBuilder)
        ensures
            b@ == (WeatherRecordBuilderView { temp_min: Some(temp), ..self@ }),
    {
        let mut b = self;
        b.temp_min = Some(temp);
        b
    }

    pub fn temp_max(self, temp: i32) -> (b: WeatherRecordBuilder)
        ensures
            b@ == (WeatherRecordBuilderView { temp_max: Some(temp), ..self@ }),
    {
        let mut b = self;
        b.temp_max = Some(temp);
        b
    }

    pub fn temp_avg(self, temp: i32) -> (b: WeatherRecordBuilder)
        ensures
            b@ == (WeatherRecordBuilderView { temp_avg: Some(temp), ..self@ }),
    {
        let mut b = self;
        b.temp_avg = Some(temp);
        b
    }

    pub fn temperatures(self, min: i32, avg: i32, max: i32) -> (b: WeatherRecordBuilder)
        ensures
            b@ == (WeatherRecordBuilderView {
                temp_min: Some(min),
                temp_avg: Some(avg),
                temp_max: Some(max),
                ..self@
            }),
    {
        let mut b = self;
        b.temp_min = Some(min);
        b.temp_avg = Some(avg);
        b.temp_max = Some(max);
        b
    }

    pub fn precipitation(self, precip: i32) -> (b: WeatherRecordBuilder)
        ensures
            b@ == (WeatherRecordBuilderView { precipitation: Some(precip), ..self@ }),
    {
        let mut b = self;
        b.precipitation = Some(precip);
        b
    }

    pub fn wind_speed(self, speed: i32) -> (b: WeatherRecordBuilder)
        ensures
            b@ == (WeatherRecordBuilderView { wind_speed: Some(speed), ..self@ }),
    {
        let mut b = self;
        b.wind_speed = Some(speed);
        b
    }

    pub fn temp_quality(self, quality: String) -> (b: WeatherRecordBuilder)
        ensures
            b@ == (WeatherRecordBuilderView { temp_quality: Some(quality@), ..self@ }),
    {
        let mut b = self;
        b.temp_quality = Some(quality);
        b
    }

    pub fn precip_quality(self, quality: String) -> (b: WeatherRecordBuilder)
        ensures
            b@ == (WeatherRecordBuilderView { precip_quality: Some(quality@), ..self@ }),
    {
        let mut b = self;
        b.precip_quality = Some(quality);
        b
    }

    pub fn wind_quality(self, quality: String) -> (b: WeatherRecordBuilder)
        ensures
            b@ == (WeatherRecordBuilderView { wind_quality: Some(quality@), ..self@ }),
    {
        let mut b = self;
        b.wind_quality = Some(quality);
        b
    }

    /// The record of the fields given: it needs station, name, day and
    /// position, its temperatures in order and each field in its range.
    pub fn build(self) -> (r: Result<WeatherRecord, ProcessingError>)
        ensures
            match r {
                Ok(rec) => {
                    &&& self@.missing_field().is_none()
                    &&& rec@ == self@.record()
                    &&& rec@.temperatures_ordered()
                    &&& rec@.field_out_of_range().is_none()
                },
                Err(e) => {
                    if self@.missing_field() is Some {
                        e matches ProcessingError::MissingData(field) && Some(field@)
                            == self@.missing_field()
                    } else if !self@.record().temperatures_ordered() {
                        e is TemperatureValidation
                    } else {
                        e matches ProcessingError::Validation(field) && Some(field@)
                            == self@.record().field_out_of_range()
                    }
                },
            },
    {
        let station_id = match self.station_id {
            Some(v) => v,
            None => {
                return Err(ProcessingError::MissingData(String::from_str("station_id")));
            },
        };
        let station_name = match self.station_name {
            Some(v) => v,
            None => {
                return Err(ProcessingError::MissingData(String::from_str("station_name")));
            },
        };
        let date = match self.date {
            Some(v) => v,
            None => {
                return Err(ProcessingError::MissingData(String::from_str("date")));
            },
        };
        let latitude = match self.latitude {
            Some(v) => v,
            None => {
                return Err(ProcessingError::MissingData(String::from_str("latitude")));
            },
        };
        let longitude = match self.longitude {
            Some(v) => v,
            None => {
                return Err(ProcessingError::MissingData(String::from_str("longitude")));
            },
        };
        let record = WeatherRecord::new(
            station_id,
            station_name,
            date,
            latitude,
            longitude,
            self.temp_min,
            self.temp_max,
            self.temp_avg,
            self.precipitation,
            self.wind_speed,
            self.temp_quality,
            self.precip_quality,
            self.wind_quality,
        );
        match record.validate_relationships() {
            Ok(()) => Ok(record),
            Err(e) => Err(e),
        }
    }
}

} // verus!
