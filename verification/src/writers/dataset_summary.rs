//! A summary of a set of unified records: its extent in space and time, what
//! it holds of each metric family, how its values are flagged and assessed,
//! its extremes and a sample of its records.

use vstd::prelude::*;
use vstd::string::*;
use std::collections::HashSet;
use crate::models::date::{earlier_of, later_of, Date};
use crate::models::weather::{
    flag_has,
    flag_is,
    DataQuality,
    PhysicalValidity,
    WeatherRecord,
    WeatherRecordView,
};
use crate::processors::integrity_checker::record_views;
use crate::utils::text::{chars_of, seq_equal};
use crate::writers::parquet_writer::ParquetWriter;

verus! {

/// A metric family, or any of them.
#[derive(Debug, Clone, Copy, PartialEq, Eq, Structural)]
pub enum Family {
    Any,
    Temperature,
    Precipitation,
    WindSpeed,
}

/// The span of the positions of a set of records, in micro-arcseconds, and
/// the countries that the span suggests.
#[derive(Debug, Clone)]
pub struct GeographicBounds {
    pub min_lat: i64,
    pub max_lat: i64,
    pub min_lon: i64,
    pub max_lon: i64,
    pub countries: Vec<String>,
}

/// The first and the last day of a set of records, and of the records of
/// each family.
#[derive(Debug, Clone, Copy)]
pub struct TemporalCoverage {
    pub overall_start: Date,
    pub overall_end: Date,
    pub temperature_range: Option<(Date, Date)>,
    pub precipitation_range: Option<(Date, Date)>,
    pub wind_range: Option<(Date, Date)>,
}

/// How many records and stations have values of each family, and between
/// which values these lie, in tenths of the unit.
#[derive(Debug, Clone, Copy)]
pub struct MetricStatistics {
    pub temperature_records: usize,
    pub temperature_stations: usize,
    pub precipitation_records: usize,
    pub precipitation_stations: usize,
    pub wind_records: usize,
    pub wind_stations: usize,
    pub temperature_range: Option<(i32, i32)>,
    pub precipitation_range: Option<(i32, i32)>,
    pub wind_range: Option<(i32, i32)>,
}

/// How often the values of a set of records are flagged by the provider,
/// assessed by the plausibility check, and rated by both together.
#[derive(Debug, Clone, Copy, PartialEq, Eq, Structural)]
pub struct EnhancedDataQuality {
    pub ecad_valid: usize,
    pub ecad_suspect: usize,
    pub ecad_missing: usize,
    pub physically_valid: usize,
    pub physically_suspect: usize,
    pub physically_invalid: usize,
    pub combined_valid: usize,
    pub combined_suspect_original: usize,
    pub combined_suspect_range: usize,
    pub combined_suspect_both: usize,
    pub combined_invalid: usize,
    pub combined_missing: usize,
    pub validation_errors: usize,
}

/// The records with the most extreme values.
#[derive(Debug, Clone)]
pub struct ExtremeRecords {
    pub coldest: Option<WeatherRecord>,
    pub hottest: Option<WeatherRecord>,
    pub wettest: Option<WeatherRecord>,
    pub windiest: Option<WeatherRecord>,
}

/// The summary of a set of unified records.
#[derive(Debug, Clone)]
pub struct WeatherDatasetSummary {
    pub total_records: usize,
    pub total_stations: usize,
    pub geographic_bounds: GeographicBounds,
    pub temporal_coverage: TemporalCoverage,
    pub metric_statistics: MetricStatistics,
    pub data_quality: EnhancedDataQuality,
    pub sample_records: Vec<WeatherRecord>,
    pub extreme_records: ExtremeRecords,
}

/// Whether a record has a value of the family.
pub open spec fn has_family(r: WeatherRecordView, family: Family) -> bool {
    match family {
        Family::Any => true,
        Family::Temperature => r.has_temperature_data(),
        Family::Precipitation => r.precipitation is Some,
        Family::WindSpeed => r.wind_speed is Some,
    }
}

/// How many of the first `count` records have a value of the family.
pub open spec fn family_records(rs: Seq<WeatherRecordView>, family: Family, count: int) -> nat
    decreases count,
{
    if count <= 0 {
        0
    } else {
        family_records(rs, family, count - 1) + if has_family(rs[count - 1], family) {
            1nat
        } else {
            0nat
        }
    }
}

/// The stations of those of the first `count` records that have a value of
/// the family.
pub open spec fn family_stations(rs: Seq<WeatherRecordView>, family: Family, count: int) -> Set<u32>
    decreases count,
{
    if count <= 0 {
        Set::empty()
    } else if has_family(rs[count - 1], family) {
        family_stations(rs, family, count - 1).insert(rs[count - 1].station_id)
    } else {
        family_stations(rs, family, count - 1)
    }
}

pub open spec fn span_with(span: Option<(Date, Date)>, d: Date) -> Option<(Date, Date)> {
    match span {
        Some(s) => Some((earlier_of(s.0, d), later_of(s.1, d))),
        None => Some((d, d)),
    }
}

/// The first and the last day of those of the first `count` records that
/// have a value of the family.
pub open spec fn family_days(rs: Seq<WeatherRecordView>, family: Family, count: int) -> Option<
    (Date, Date),
>
    decreases count,
{
    if count <= 0 {
        None
    } else if has_family(rs[count - 1], family) {
        span_with(family_days(rs, family, count - 1), rs[count - 1].date)
    } else {
        family_days(rs, family, count - 1)
    }
}

/// The values that bound a set of positions.
pub struct Bounds {
    pub min_lat: i64,
    pub max_lat: i64,
    pub min_lon: i64,
    pub max_lon: i64,
}

/// The bounds of the positions of the first `count` records. Without a
/// record the least values are the greatest number and the greatest values
/// the least number.
pub open spec fn bounds_upto(rs: Seq<WeatherRecordView>, count: int) -> Bounds
    decreases count,
{
    if count <= 0 {
        Bounds { min_lat: i64::MAX, max_lat: i64::MIN, min_lon: i64::MAX, max_lon: i64::MIN }
    } else {
        let b = bounds_upto(rs, count - 1);
        let r = rs[count - 1];
        Bounds {
            min_lat: if r.latitude.micro_arcsec < b.min_lat {
                r.latitude.micro_arcsec
            } else {
                b.min_lat
            },
            max_lat: if r.latitude.micro_arcsec > b.max_lat {
                r.latitude.micro_arcsec
            } else {
                b.max_lat
            },
            min_lon: if r.longitude.micro_arcsec < b.min_lon {
                r.longitude.micro_arcsec
            } else {
                b.min_lon
            },
            max_lon: if r.longitude.micro_arcsec > b.max_lon {
                r.longitude.micro_arcsec
            } else {
                b.max_lon
            },
        }
    }
}

/// 5, 53 and 55 degrees in micro-arcseconds.
pub const DEGREES_5: i64 = 18_000_000_000;

pub const DEGREES_53: i64 = 190_800_000_000;

pub const DEGREES_55: i64 = 198_000_000_000;

/// The countries that bounds suggest: both where the set reaches west of
/// five degrees west and north of 53 degrees north, else Great Britain where
/// it reaches north of 55 degrees north, else Ireland.
pub open spec fn countries_of(b: Bounds) -> Seq<Seq<char>> {
    if b.min_lon < -DEGREES_5 && b.max_lat > DEGREES_53 {
        seq!["GB"@, "IE"@]
    } else if b.max_lat > DEGREES_55 {
        seq!["GB"@]
    } else {
        seq!["IE"@]
    }
}

/// Which value of a record is looked at for an extreme.
#[derive(Debug, Clone, Copy, PartialEq, Eq, Structural)]
pub enum Extreme {
    Coldest,
    Hottest,
    Wettest,
    Windiest,
}

/// The value of a record that counts for an extreme: the record has the
/// family, its composite quality is not Invalid, and the value is there.
pub open spec fn candidate(r: WeatherRecordView, extreme: Extreme) -> Option<i32> {
    match extreme {
        Extreme::Coldest => if r.has_temperature_data() && r.temperature_quality()
            != DataQuality::Invalid {
            r.temp_min
        } else {
            None
        },
        Extreme::Hottest => if r.has_temperature_data() && r.temperature_quality()
            != DataQuality::Invalid {
            r.temp_max
        } else {
            None
        },
        Extreme::Wettest => if r.precipitation_quality() != DataQuality::Invalid {
            r.precipitation
        } else {
            None
        },
        Extreme::Windiest => if r.wind_quality_assessment() != DataQuality::Invalid {
            r.wind_speed
        } else {
            None
        },
    }
}

/// Whether a value beats the extreme so far: a colder value for the coldest,
/// a greater value for the others.
pub open spec fn beats(extreme: Extreme, value: i32, so_far: Option<i32>) -> bool {
    match so_far {
        None => true,
        Some(s) => if extreme == Extreme::Coldest {
            value < s
        } else {
            value > s
        },
    }
}

/// The place of the record with the extreme among the first `count`
/// records: the first record with the most extreme value that counts.
pub open spec fn extreme_at(rs: Seq<WeatherRecordView>, extreme: Extreme, count: int) -> Option<
    int,
>
    decreases count,
{
    if count <= 0 {
        None
    } else {
        let before = extreme_at(rs, extreme, count - 1);
        let so_far = match before {
            Some(i) => candidate(rs[i], extreme),
            None => None,
        };
        match candidate(rs[count - 1], extreme) {
            Some(v) => if beats(extreme, v, so_far) {
                Some(count - 1)
            } else {
                before
            },
            None => before,
        }
    }
}

/// The extreme value among the first `count` records.
pub open spec fn extreme_value(rs: Seq<WeatherRecordView>, extreme: Extreme, count: int) -> Option<
    i32,
> {
    match extreme_at(rs, extreme, count) {
        Some(i) => candidate(rs[i], extreme),
        None => None,
    }
}

/// One more, unless the number is the greatest that fits.
pub open spec fn bumped(n: usize) -> usize {
    if n < usize::MAX {
        (n + 1) as usize
    } else {
        n
    }
}

/// How the provider flags a value of a family: 0 for valid, 1 for suspect,
/// 9 for missing; nothing for a family without value or flag, or a flag with
/// none of the marks. A temperature flag is looked at for the marks it
/// holds, valid first; the other flags are one mark.
pub open spec fn provider_mark(r: WeatherRecordView, family: Family) -> Option<char> {
    match family {
        Family::Temperature => if r.has_temperature_data() && r.temp_quality is Some {
            if flag_has(r.temp_quality, '0') {
                Some('0')
            } else if flag_has(r.temp_quality, '1') {
                Some('1')
            } else if flag_has(r.temp_quality, '9') {
                Some('9')
            } else {
                None
            }
        } else {
            None
        },
        Family::Precipitation => if r.precipitation is Some {
            single_mark(r.precip_quality)
        } else {
            None
        },
        Family::WindSpeed => if r.wind_speed is Some {
            single_mark(r.wind_quality)
        } else {
            None
        },
        Family::Any => None,
    }
}

pub open spec fn single_mark(flag: Option<Seq<char>>) -> Option<char> {
    if flag_is(flag, '0') {
        Some('0')
    } else if flag_is(flag, '1') {
        Some('1')
    } else if flag_is(flag, '9') {
        Some('9')
    } else {
        None
    }
}

pub open spec fn bumped_if(n: usize, yes: bool) -> usize {
    if yes {
        bumped(n)
    } else {
        n
    }
}

pub open spec fn no_quality() -> EnhancedDataQuality {
    EnhancedDataQuality {
        ecad_valid: 0,
        ecad_suspect: 0,
        ecad_missing: 0,
        physically_valid: 0,
        physically_suspect: 0,
        physically_invalid: 0,
        combined_valid: 0,
        combined_suspect_original: 0,
        combined_suspect_range: 0,
        combined_suspect_both: 0,
        combined_invalid: 0,
        combined_missing: 0,
        validation_errors: 0,
    }
}

/// The counts after the provider's mark of one value.
pub open spec fn with_mark(q: EnhancedDataQuality, mark: Option<char>) -> EnhancedDataQuality {
    EnhancedDataQuality {
        ecad_valid: bumped_if(q.ecad_valid, mark == Some('0')),
        ecad_suspect: bumped_if(q.ecad_suspect, mark == Some('1')),
        ecad_missing: bumped_if(q.ecad_missing, mark == Some('9')),
        ..q
    }
}

/// The counts after the assessment of one family.
pub open spec fn with_validity(q: EnhancedDataQuality, v: Option<PhysicalValidity>)
    -> EnhancedDataQuality {
    EnhancedDataQuality {
        physically_valid: bumped_if(q.physically_valid, v == Some(PhysicalValidity::Valid)),
        physically_suspect: bumped_if(q.physically_suspect, v == Some(PhysicalValidity::Suspect)),
        physically_invalid: bumped_if(q.physically_invalid, v == Some(PhysicalValidity::Invalid)),
        ..q
    }
}

/// The counts after the composite quality of one family.
pub open spec fn with_rating(q: EnhancedDataQuality, rating: DataQuality) -> EnhancedDataQuality {
    EnhancedDataQuality {
        combined_valid: bumped_if(q.combined_valid, rating == DataQuality::Valid),
        combined_suspect_original: bumped_if(
            q.combined_suspect_original,
            rating == DataQuality::SuspectOriginal,
        ),
        combined_suspect_range: bumped_if(
            q.combined_suspect_range,
            rating == DataQuality::SuspectRange,
        ),
        combined_suspect_both: bumped_if(q.combined_suspect_both, rating == DataQuality::SuspectBoth),
        combined_invalid: bumped_if(q.combined_invalid, rating == DataQuality::Invalid),
        combined_missing: bumped_if(q.combined_missing, rating == DataQuality::Missing),
        ..q
    }
}

/// The counts after one more record: the provider's marks of its three
/// families, their three assessments and their three composite qualities.
pub open spec fn quality_with(q: EnhancedDataQuality, r: WeatherRecordView) -> EnhancedDataQuality {
    let marked = with_mark(
        with_mark(
            with_mark(q, provider_mark(r, Family::Temperature)),
            provider_mark(r, Family::Precipitation),
        ),
        provider_mark(r, Family::WindSpeed),
    );
    let assessed = with_validity(
        with_validity(with_validity(marked, r.temp_validation), r.precip_validation),
        r.wind_validation,
    );
    with_rating(
        with_rating(with_rating(assessed, r.temperature_quality()), r.precipitation_quality()),
        r.wind_quality_assessment(),
    )
}

/// The counts of the first `count` records.
pub open spec fn quality_upto(rs: Seq<WeatherRecordView>, count: int) -> EnhancedDataQuality
    decreases count,
{
    if count <= 0 {
        no_quality()
    } else {
        quality_with(quality_upto(rs, count - 1), rs[count - 1])
    }
}

/// Every how many records one is looked at for the sample.
pub open spec fn sample_step(total: nat, sample_size: nat) -> nat
    recommends
        sample_size > 0,
{
    if total > sample_size * 100 {
        total / (sample_size * 50)
    } else if total / sample_size >= 1 {
        total / sample_size
    } else {
        1
    }
}

/// How many of the records have the station name.
pub open spec fn with_name(samples: Seq<WeatherRecordView>, name: Seq<char>) -> nat
    decreases samples.len(),
{
    if samples.len() == 0 {
        0
    } else {
        with_name(samples.drop_last(), name) + if samples.last().station_name == name {
            1nat
        } else {
            0nat
        }
    }
}

/// Whether one of the records has the station name and the day.
pub open spec fn has_name_and_day(samples: Seq<WeatherRecordView>, name: Seq<char>, day: Date)
    -> bool {
    exists|i: int|
        0 <= i < samples.len() && (#[trigger] samples[i]).station_name == name && samples[i].date
            == day
}

/// The sample after a first pass over the first `count` records: every
/// `step`-th record is taken while the sample is not full, but at most two
/// of one station name.
pub open spec fn first_pass(
    rs: Seq<WeatherRecordView>,
    step: int,
    sample_size: int,
    count: int,
) -> Seq<WeatherRecordView>
    decreases count,
{
    if count <= 0 {
        Seq::empty()
    } else {
        let before = first_pass(rs, step, sample_size, count - 1);
        let r = rs[count - 1];
        if step > 0 && (count - 1) % step == 0 && before.len() < sample_size && with_name(
            before,
            r.station_name,
        ) < 2 {
            before.push(r)
        } else {
            before
        }
    }
}

/// The sample after a second pass over the first `count` records: every
/// `stride`-th record is taken while the sample is not full, unless the
/// sample has a record of its station name and day.
pub open spec fn second_pass(
    rs: Seq<WeatherRecordView>,
    stride: int,
    sample_size: int,
    start: Seq<WeatherRecordView>,
    count: int,
) -> Seq<WeatherRecordView>
    decreases count,
{
    if count <= 0 {
        start
    } else {
        let before = second_pass(rs, stride, sample_size, start, count - 1);
        let r = rs[count - 1];
        if stride > 0 && (count - 1) % stride == 0 && before.len() < sample_size
            && !has_name_and_day(before, r.station_name, r.date) {
            before.push(r)
        } else {
            before
        }
    }
}

/// A sample of at most `sample_size` records that is spread over the set and
/// its stations.
pub open spec fn diverse_sample(rs: Seq<WeatherRecordView>, sample_size: nat) -> Seq<
    WeatherRecordView,
> {
    if rs.len() == 0 || sample_size == 0 {
        Seq::empty()
    } else {
        let step = sample_step(rs.len(), sample_size) as int;
        let first = first_pass(rs, step, sample_size as int, rs.len() as int);
        if first.len() < sample_size {
            second_pass(rs, 2 * step, sample_size as int, first, rs.len() as int)
        } else {
            first
        }
    }
}

fn bump(n: usize) -> (r: usize)
    ensures
        r == bumped(n),
{
    if n < usize::MAX {
        n + 1
    } else {
        n
    }
}

fn bump_if(n: usize, yes: bool) -> (r: usize)
    ensures
        r == bumped_if(n, yes),
{
    if yes {
        bump(n)
    } else {
        n
    }
}

fn flag_chars(flag: &Option<String>) -> (r: Option<Vec<char>>)
    ensures
        match r {
            Some(v) => crate::models::weather::text_view(*flag) == Some(v@),
            None => flag.is_none(),
        },
{
    match flag {
        Some(q) => Some(chars_of(q.as_str())),
        None => None,
    }
}

fn mark_in(q: &Vec<char>) -> (r: Option<char>)
    ensures
        r == (if q@.contains('0') {
            Some('0')
        } else if q@.contains('1') {
            Some('1')
        } else if q@.contains('9') {
            Some('9')
        } else {
            None::<char>
        }),
{
    if crate::utils::text::contains_char(q, '0') {
        Some('0')
    } else if crate::utils::text::contains_char(q, '1') {
        Some('1')
    } else if crate::utils::text::contains_char(q, '9') {
        Some('9')
    } else {
        None
    }
}

fn mark_of(flag: &Option<String>) -> (r: Option<char>)
    ensures
        r == single_mark(crate::models::weather::text_view(*flag)),
{
    match flag_chars(flag) {
        Some(q) => {
            if q.len() == 1 && (q[0] == '0' || q[0] == '1' || q[0] == '9') {
                assert(q@ =~= seq![q@[0]]);
                Some(q[0])
            } else {
                proof {
                    if q@ == seq!['0'] || q@ == seq!['1'] || q@ == seq!['9'] {
                        assert(q@.len() == 1);
                        assert(q@[0] == '0' || q@[0] == '1' || q@[0] == '9');
                    }
                }
                None
            }
        },
        None => None,
    }
}

fn record_mark(r: &WeatherRecord, family: Family) -> (m: Option<char>)
    ensures
        m == provider_mark(r@, family),
{
    match family {
        Family::Temperature => {
            if r.has_temperature_data() {
                match flag_chars(&r.temp_quality) {
                    Some(q) => mark_in(&q),
                    None => None,
                }
            } else {
                None
            }
        },
        Family::Precipitation => {
            if r.has_precipitation() {
                mark_of(&r.precip_quality)
            } else {
                None
            }
        },
        Family::WindSpeed => {
            if r.has_wind_speed() {
                mark_of(&r.wind_quality)
            } else {
                None
            }
        },
        Family::Any => None,
    }
}

fn marked(q: EnhancedDataQuality, mark: Option<char>) -> (r: EnhancedDataQuality)
    ensures
        r == with_mark(q, mark),
{
    let is = |c: char| -> (b: bool)
        ensures
            b == (mark == Some(c)),
        {
            match mark {
                Some(m) => m == c,
                None => false,
            }
        };
    EnhancedDataQuality {
        ecad_valid: bump_if(q.ecad_valid, is('0')),
        ecad_suspect: bump_if(q.ecad_suspect, is('1')),
        ecad_missing: bump_if(q.ecad_missing, is('9')),
        physically_valid: q.physically_valid,
        physically_suspect: q.physically_suspect,
        physically_invalid: q.physically_invalid,
        combined_valid: q.combined_valid,
        combined_suspect_original: q.combined_suspect_original,
        combined_suspect_range: q.combined_suspect_range,
        combined_suspect_both: q.combined_suspect_both,
        combined_invalid: q.combined_invalid,
        combined_missing: q.combined_missing,
        validation_errors: q.validation_errors,
    }
}

fn assessed(q: EnhancedDataQuality, v: Option<PhysicalValidity>) -> (r: EnhancedDataQuality)
    ensures
        r == with_validity(q, v),
{
    let (valid, suspect, invalid) = match v {
        Some(PhysicalValidity::Valid) => (true, false, false),
        Some(PhysicalValidity::Suspect) => (false, true, false),
        Some(PhysicalValidity::Invalid) => (false, false, true),
        None => (false, false, false),
    };
    EnhancedDataQuality {
        ecad_valid: q.ecad_valid,
        ecad_suspect: q.ecad_suspect,
        ecad_missing: q.ecad_missing,
        physically_valid: bump_if(q.physically_valid, valid),
        physically_suspect: bump_if(q.physically_suspect, suspect),
        physically_invalid: bump_if(q.physically_invalid, invalid),
        combined_valid: q.combined_valid,
        combined_suspect_original: q.combined_suspect_original,
        combined_suspect_range: q.combined_suspect_range,
        combined_suspect_both: q.combined_suspect_both,
        combined_invalid: q.combined_invalid,
        combined_missing: q.combined_missing,
        validation_errors: q.validation_errors,
    }
}

fn rated(q: EnhancedDataQuality, rating: DataQuality) -> (r: EnhancedDataQuality)
    ensures
        r == with_rating(q, rating),
{
    EnhancedDataQuality {
        ecad_valid: q.ecad_valid,
        ecad_suspect: q.ecad_suspect,
        ecad_missing: q.ecad_missing,
        physically_valid: q.physically_valid,
        physically_suspect: q.physically_suspect,
        physically_invalid: q.physically_invalid,
        combined_valid: bump_if(q.combined_valid, rating == DataQuality::Valid),
        combined_suspect_original: bump_if(
            q.combined_suspect_original,
            rating == DataQuality::SuspectOriginal,
        ),
        combined_suspect_range: bump_if(
            q.combined_suspect_range,
            rating == DataQuality::SuspectRange,
        ),
        combined_suspect_both: bump_if(q.combined_suspect_both, rating == DataQuality::SuspectBoth),
        combined_invalid: bump_if(q.combined_invalid, rating == DataQuality::Invalid),
        combined_missing: bump_if(q.combined_missing, rating == DataQuality::Missing),
        validation_errors: q.validation_errors,
    }
}

/// The counts after one more record.
pub fn quality_after(q: EnhancedDataQuality, r: &WeatherRecord) -> (n: EnhancedDataQuality)
    ensures
        n == quality_with(q, r@),
{
    let q = marked(q, record_mark(r, Family::Temperature));
    let q = marked(q, record_mark(r, Family::Precipitation));
    let q = marked(q, record_mark(r, Family::WindSpeed));
    let q = assessed(q, r.temp_validation);
    let q = assessed(q, r.precip_validation);
    let q = assessed(q, r.wind_validation);
    let q = rated(q, r.assess_temperature_quality());
    let q = rated(q, r.assess_precipitation_quality());
    rated(q, r.assess_wind_quality())
}

fn record_has(r: &WeatherRecord, family: Family) -> (b: bool)
    ensures
        b == has_family(r@, family),
{
    match family {
        Family::Any => true,
        Family::Temperature => r.has_temperature_data(),
        Family::Precipitation => r.has_precipitation(),
        Family::WindSpeed => r.has_wind_speed(),
    }
}

fn candidate_of(r: &WeatherRecord, extreme: Extreme) -> (v: Option<i32>)
    ensures
        v == candidate(r@, extreme),
{
    match extreme {
        Extreme::Coldest => {
            if r.has_temperature_data() && r.assess_temperature_quality() != DataQuality::Invalid {
                r.temp_min
            } else {
                None
            }
        },
        Extreme::Hottest => {
            if r.has_temperature_data() && r.assess_temperature_quality() != DataQuality::Invalid {
                r.temp_max
            } else {
                None
            }
        },
        Extreme::Wettest => {
            if r.assess_precipitation_quality() != DataQuality::Invalid {
                r.precipitation
            } else {
                None
            }
        },
        Extreme::Windiest => {
            if r.assess_wind_quality() != DataQuality::Invalid {
                r.wind_speed
            } else {
                None
            }
        },
    }
}

/// The place of the record with an extreme.
pub fn find_extreme(records: &Vec<WeatherRecord>, extreme: Extreme) -> (r: Option<usize>)
    ensures
        match r {
            Some(i) => extreme_at(record_views(records@), extreme, records@.len() as int) == Some(
                i as int,
            ) && i < records@.len(),
            None => extreme_at(record_views(records@), extreme, records@.len() as int).is_none(),
        },
{
    let ghost rs = record_views(records@);
    let mut at: Option<usize> = None;
    let mut so_far: Option<i32> = None;
    let mut i: usize = 0;
    while i < records.len()
        invariant
            i <= records.len(),
            rs == record_views(records@),
            match at {
                Some(k) => extreme_at(rs, extreme, i as int) == Some(k as int) && k < i && so_far
                    == candidate(rs[k as int], extreme),
                None => extreme_at(rs, extreme, i as int).is_none() && so_far.is_none(),
            },
        decreases records.len() - i,
    {
        assert(rs[i as int] == records@[i as int]@);
        match candidate_of(&records[i], extreme) {
            Some(v) => {
                let better = match so_far {
                    None => true,
                    Some(s) => match extreme {
                        Extreme::Coldest => v < s,
                        _ => v > s,
                    },
                };
                if better {
                    at = Some(i);
                    so_far = Some(v);
                }
            },
            None => {},
        }
        i += 1;
    }
    at
}

fn count_name(samples: &Vec<WeatherRecord>, name: &Vec<char>) -> (n: usize)
    ensures
        n == with_name(record_views(samples@), name@),
{
    let ghost views = record_views(samples@);
    let mut n: usize = 0;
    let mut i: usize = 0;
    assert(views.take(0) =~= Seq::<WeatherRecordView>::empty());
    while i < samples.len()
        invariant
            i <= samples.len(),
            views == record_views(samples@),
            n == with_name(views.take(i as int), name@),
            n <= i,
        decreases samples.len() - i,
    {
        proof {
            let next = views.take(i as int + 1);
            assert(next.drop_last() =~= views.take(i as int));
            assert(next.last() == samples@[i as int]@);
        }
        let have = chars_of(samples[i].station_name.as_str());
        if seq_equal(&have, name) {
            n += 1;
        }
        i += 1;
    }
    assert(views.take(samples.len() as int) =~= views);
    n
}

fn holds_name_and_day(samples: &Vec<WeatherRecord>, name: &Vec<char>, day: Date) -> (r: bool)
    ensures
        r == has_name_and_day(record_views(samples@), name@, day),
{
    let ghost views = record_views(samples@);
    let mut i: usize = 0;
    while i < samples.len()
        invariant
            i <= samples.len(),
            views == record_views(samples@),
            forall|k: int|
                0 <= k < i ==> !((#[trigger] views[k]).station_name == name@ && views[k].date
                    == day),
        decreases samples.len() - i,
    {
        assert(views[i as int] == samples@[i as int]@);
        let have = chars_of(samples[i].station_name.as_str());
        if seq_equal(&have, name) && samples[i].date == day {
            return true;
        }
        i += 1;
    }
    false
}

/// A sample of at most `sample_size` records that is spread over the set and
/// its stations.
pub fn create_diverse_sample(all_records: &Vec<WeatherRecord>, sample_size: usize) -> (samples:
    Vec<WeatherRecord>)
    ensures
        record_views(samples@) == diverse_sample(record_views(all_records@), sample_size as nat),
        samples@.len() <= sample_size,
{
    let ghost rs = record_views(all_records@);
    let mut samples: Vec<WeatherRecord> = Vec::new();
    assert(record_views(samples@) =~= Seq::<WeatherRecordView>::empty());
    if all_records.len() == 0 || sample_size == 0 {
        return samples;
    }
    let total = all_records.len();
    let step: usize = if total as u128 > sample_size as u128 * 100 {
        (total as u128 / (sample_size as u128 * 50)) as usize
    } else if total / sample_size >= 1 {
        total / sample_size
    } else {
        1
    };
    assert(step == sample_step(total as nat, sample_size as nat));
    assert(step >= 1) by {
        if total as int > sample_size * 100 {
            assert(total as int / (sample_size * 50) >= 1) by (nonlinear_arith)
                requires
                    total as int > sample_size * 100,
                    sample_size > 0,
            ;
        }
    }
    let mut i: usize = 0;
    while i < total
        invariant
            i <= total == all_records.len(),
            step >= 1,
            rs == record_views(all_records@),
            record_views(samples@) == first_pass(rs, step as int, sample_size as int, i as int),
            samples@.len() <= sample_size,
        decreases total - i,
    {
        assert(rs[i as int] == all_records@[i as int]@);
        if i % step == 0 && samples.len() < sample_size {
            let name = chars_of(all_records[i].station_name.as_str());
            if count_name(&samples, &name) < 2 {
                let ghost before = record_views(samples@);
                samples.push(all_records[i].duplicate());
                assert(record_views(samples@) =~= before.push(all_records@[i as int]@));
            }
        }
        i += 1;
    }
    if samples.len() < sample_size {
        let ghost first = record_views(samples@);
        let stride: u128 = step as u128 * 2;
        let mut j: usize = 0;
        while j < total
            invariant
                j <= total == all_records.len(),
                step >= 1,
                stride == step * 2,
                rs == record_views(all_records@),
                record_views(samples@) == second_pass(
                    rs,
                    stride as int,
                    sample_size as int,
                    first,
                    j as int,
                ),
                samples@.len() <= sample_size,
            decreases total - j,
        {
            assert(rs[j as int] == all_records@[j as int]@);
            if j as u128 % stride == 0 && samples.len() < sample_size {
                let name = chars_of(all_records[j].station_name.as_str());
                if !holds_name_and_day(&samples, &name, all_records[j].date) {
                    let ghost before = record_views(samples@);
                    samples.push(all_records[j].duplicate());
                    assert(record_views(samples@) =~= before.push(all_records@[j as int]@));
                }
            }
            j += 1;
        }
    }
    samples
}

fn duplicate_at(records: &Vec<WeatherRecord>, at: Option<usize>) -> (r: Option<WeatherRecord>)
    requires
        at matches Some(i) ==> i < records@.len(),
    ensures
        match at {
            Some(i) => r matches Some(rec) && rec@ == records@[i as int]@,
            None => r.is_none(),
        },
{
    match at {
        Some(i) => Some(records[i].duplicate()),
        None => None,
    }
}

fn widen(span: Option<(Date, Date)>, d: Date) -> (r: Option<(Date, Date)>)
    ensures
        r == span_with(span, d),
{
    match span {
        Some(s) => Some((s.0.earlier(d), s.1.later(d))),
        None => Some((d, d)),
    }
}

/// What the records hold of one family.
pub struct FamilyFigures {
    pub records: usize,
    pub stations: usize,
    pub days: Option<(Date, Date)>,
}

/// How many records and stations have a value of the family, and the first
/// and the last day of these records.
pub fn family_figures(records: &Vec<WeatherRecord>, family: Family) -> (f: FamilyFigures)
    ensures
        f.records == family_records(record_views(records@), family, records@.len() as int),
        f.stations == family_stations(record_views(records@), family, records@.len() as int).len(),
        f.days == family_days(record_views(records@), family, records@.len() as int),
{
    let ghost rs = record_views(records@);
    let mut count: usize = 0;
    let mut stations: HashSet<u32> = HashSet::new();
    let mut days: Option<(Date, Date)> = None;
    let mut i: usize = 0;
    while i < records.len()
        invariant
            i <= records.len(),
            rs == record_views(records@),
            count == family_records(rs, family, i as int),
            count <= i,
            stations@ == family_stations(rs, family, i as int),
            days == family_days(rs, family, i as int),
        decreases records.len() - i,
    {
        assert(rs[i as int] == records@[i as int]@);
        if record_has(&records[i], family) {
            count += 1;
            stations.insert(records[i].station_id);
            days = widen(days, records[i].date);
        }
        i += 1;
    }
    proof {
        broadcast use vstd::std_specs::hash::group_hash_axioms;

    }
    FamilyFigures { records: count, stations: stations.len(), days }
}

/// Whether a summary is that of the records, with a sample of at most
/// `sample_size` of them.
pub open spec fn is_summary_of(s: WeatherDatasetSummary, rs: Seq<WeatherRecordView>, sample_size: nat)
    -> bool {
    let n = rs.len() as int;
    let b = bounds_upto(rs, n);
    &&& s.total_records == rs.len()
    &&& s.total_stations == family_stations(rs, Family::Any, n).len()
    &&& s.geographic_bounds.min_lat == b.min_lat
    &&& s.geographic_bounds.max_lat == b.max_lat
    &&& s.geographic_bounds.min_lon == b.min_lon
    &&& s.geographic_bounds.max_lon == b.max_lon
    &&& s.geographic_bounds.countries@.map_values(|c: String| c@) == countries_of(b)
    &&& s.temporal_coverage.overall_start == (match family_days(rs, Family::Any, n) {
        Some(d) => d.0,
        None => Date { year: 1900, month: 1, day: 1 },
    })
    &&& s.temporal_coverage.overall_end == (match family_days(rs, Family::Any, n) {
        Some(d) => d.1,
        None => Date { year: 2000, month: 1, day: 1 },
    })
    &&& s.temporal_coverage.temperature_range == family_days(rs, Family::Temperature, n)
    &&& s.temporal_coverage.precipitation_range == family_days(
        rs,
        Family::Precipitation,
        n,
    )
    &&& s.temporal_coverage.wind_range == family_days(rs, Family::WindSpeed, n)
    &&& s.metric_statistics.temperature_records == family_records(
        rs,
        Family::Temperature,
        n,
    )
    &&& s.metric_statistics.temperature_stations == family_stations(
        rs,
        Family::Temperature,
        n,
    ).len()
    &&& s.metric_statistics.precipitation_records == family_records(
        rs,
        Family::Precipitation,
        n,
    )
    &&& s.metric_statistics.precipitation_stations == family_stations(
        rs,
        Family::Precipitation,
        n,
    ).len()
    &&& s.metric_statistics.wind_records == family_records(rs, Family::WindSpeed, n)
    &&& s.metric_statistics.wind_stations == family_stations(
        rs,
        Family::WindSpeed,
        n,
    ).len()
    &&& s.metric_statistics.temperature_range == (match (
        extreme_value(rs, Extreme::Coldest, n),
        extreme_value(rs, Extreme::Hottest, n),
    ) {
        (Some(low), Some(high)) => Some((low, high)),
        _ => None::<(i32, i32)>,
    })
    &&& s.metric_statistics.precipitation_range == (match extreme_value(
        rs,
        Extreme::Wettest,
        n,
    ) {
        Some(high) => Some((0i32, high)),
        None => None::<(i32, i32)>,
    })
    &&& s.metric_statistics.wind_range == (match extreme_value(rs, Extreme::Windiest, n) {
        Some(high) => Some((0i32, high)),
        None => None::<(i32, i32)>,
    })
    &&& s.data_quality == quality_upto(rs, n)
    &&& record_views(s.sample_records@) == diverse_sample(rs, sample_size)
    &&& extreme_view(s.extreme_records.coldest) == extreme_record(rs, Extreme::Coldest)
    &&& extreme_view(s.extreme_records.hottest) == extreme_record(rs, Extreme::Hottest)
    &&& extreme_view(s.extreme_records.wettest) == extreme_record(rs, Extreme::Wettest)
    &&& extreme_view(s.extreme_records.windiest) == extreme_record(rs, Extreme::Windiest)
}

impl ParquetWriter {
    /// The summary of a set of unified records, with a sample of at most
    /// `sample_size` of them.
    pub fn analyze_weather_dataset(&self, records: &Vec<WeatherRecord>, sample_size: usize) -> (s:
        WeatherDatasetSummary)
        ensures
            is_summary_of(s, record_views(records@), sample_size as nat),
    {
        analyze_weather_records(records, sample_size)
    }
}

/// The summary of a set of unified records, with a sample of at most
/// `sample_size` of them.
pub fn analyze_weather_records(records: &Vec<WeatherRecord>, sample_size: usize) -> (s:
    WeatherDatasetSummary)
    ensures
        is_summary_of(s, record_views(records@), sample_size as nat),
{
    let ghost rs = record_views(records@);
    let all = family_figures(records, Family::Any);
    let temperature = family_figures(records, Family::Temperature);
    let precipitation = family_figures(records, Family::Precipitation);
    let wind = family_figures(records, Family::WindSpeed);
    let mut min_lat: i64 = i64::MAX;
    let mut max_lat: i64 = i64::MIN;
    let mut min_lon: i64 = i64::MAX;
    let mut max_lon: i64 = i64::MIN;
    let mut quality = EnhancedDataQuality {
        ecad_valid: 0,
        ecad_suspect: 0,
        ecad_missing: 0,
        physically_valid: 0,
        physically_suspect: 0,
        physically_invalid: 0,
        combined_valid: 0,
        combined_suspect_original: 0,
        combined_suspect_range: 0,
        combined_suspect_both: 0,
        combined_invalid: 0,
        combined_missing: 0,
        validation_errors: 0,
    };
    let mut i: usize = 0;
    while i < records.len()
        invariant
            i <= records.len(),
            rs == record_views(records@),
            bounds_upto(rs, i as int) == (Bounds { min_lat, max_lat, min_lon, max_lon }),
            quality == quality_upto(rs, i as int),
        decreases records.len() - i,
    {
        let r = &records[i];
        assert(rs[i as int] == r@);
        if r.latitude.micro_arcsec < min_lat {
            min_lat = r.latitude.micro_arcsec;
        }
        if r.latitude.micro_arcsec > max_lat {
            max_lat = r.latitude.micro_arcsec;
        }
        if r.longitude.micro_arcsec < min_lon {
            min_lon = r.longitude.micro_arcsec;
        }
        if r.longitude.micro_arcsec > max_lon {
            max_lon = r.longitude.micro_arcsec;
        }
        quality = quality_after(quality, r);
        i += 1;
    }
    let mut countries: Vec<String> = Vec::new();
    if min_lon < -DEGREES_5 && max_lat > DEGREES_53 {
        countries.push(String::from_str("GB"));
        countries.push(String::from_str("IE"));
    } else if max_lat > DEGREES_55 {
        countries.push(String::from_str("GB"));
    } else {
        countries.push(String::from_str("IE"));
    }
    assert(countries@.map_values(|c: String| c@) =~= countries_of(
        Bounds { min_lat, max_lat, min_lon, max_lon },
    ));
    let coldest = find_extreme(records, Extreme::Coldest);
    let hottest = find_extreme(records, Extreme::Hottest);
    let wettest = find_extreme(records, Extreme::Wettest);
    let windiest = find_extreme(records, Extreme::Windiest);
    let value_at = |at: Option<usize>, extreme: Extreme| -> (v: Option<i32>)
        requires
            at matches Some(k) ==> k < records@.len(),
        ensures
            v == (match at {
                Some(k) => candidate(records@[k as int]@, extreme),
                None => None::<i32>,
            }),
        {
            match at {
                Some(k) => candidate_of(&records[k], extreme),
                None => None,
            }
        };
    let low = value_at(coldest, Extreme::Coldest);
    let high = value_at(hottest, Extreme::Hottest);
    let rain = value_at(wettest, Extreme::Wettest);
    let gale = value_at(windiest, Extreme::Windiest);
    proof {
        if coldest is Some {
            assert(rs[coldest->0 as int] == records@[coldest->0 as int]@);
        }
        if hottest is Some {
            assert(rs[hottest->0 as int] == records@[hottest->0 as int]@);
        }
        if wettest is Some {
            assert(rs[wettest->0 as int] == records@[wettest->0 as int]@);
        }
        if windiest is Some {
            assert(rs[windiest->0 as int] == records@[windiest->0 as int]@);
        }
    }
    WeatherDatasetSummary {
        total_records: records.len(),
        total_stations: all.stations,
        geographic_bounds: GeographicBounds { min_lat, max_lat, min_lon, max_lon, countries },
        temporal_coverage: TemporalCoverage {
            overall_start: match all.days {
                Some(d) => d.0,
                None => Date { year: 1900, month: 1, day: 1 },
            },
            overall_end: match all.days {
                Some(d) => d.1,
                None => Date { year: 2000, month: 1, day: 1 },
            },
            temperature_range: temperature.days,
            precipitation_range: precipitation.days,
            wind_range: wind.days,
        },
        metric_statistics: MetricStatistics {
            temperature_records: temperature.records,
            temperature_stations: temperature.stations,
            precipitation_records: precipitation.records,
            precipitation_stations: precipitation.stations,
            wind_records: wind.records,
            wind_stations: wind.stations,
            temperature_range: match (low, high) {
                (Some(l), Some(h)) => Some((l, h)),
                _ => None,
            },
            precipitation_range: match rain {
                Some(h) => Some((0, h)),
                None => None,
            },
            wind_range: match gale {
                Some(h) => Some((0, h)),
                None => None,
            },
        },
        data_quality: quality,
        sample_records: create_diverse_sample(records, sample_size),
        extreme_records: ExtremeRecords {
            coldest: duplicate_at(records, coldest),
            hottest: duplicate_at(records, hottest),
            wettest: duplicate_at(records, wettest),
            windiest: duplicate_at(records, windiest),
        },
    }
}

/// An optional record with its texts as sequences of characters.
pub open spec fn extreme_view(r: Option<WeatherRecord>) -> Option<WeatherRecordView> {
    match r {
        Some(r) => Some(r@),
        None => None,
    }
}

/// The record with an extreme.
pub open spec fn extreme_record(rs: Seq<WeatherRecordView>, extreme: Extreme) -> Option<
    WeatherRecordView,
> {
    match extreme_at(rs, extreme, rs.len() as int) {
        Some(i) => Some(rs[i]),
        None => None,
    }
}

} // verus!
