//! Counts, spans and extremes of a set of consolidated records.

use vstd::prelude::*;
use vstd::string::*;
use std::collections::HashSet;
use crate::error::ProcessingError;
use crate::models::consolidated::{ConsolidatedRecord, ConsolidatedView, MISSING_TEMPERATURE};
use crate::models::date::{earlier_of, later_of, Date};
use crate::models::temperature::{MAX_VALID_TEMP, MIN_VALID_TEMP};
use crate::processors::data_merger::consolidated_views;

verus! {

/// How many records there are and how many of them are flagged in which way.
#[derive(Debug, Clone, Copy, PartialEq, Eq, Structural)]
pub struct DataQuality {
    pub total_records: usize,
    pub valid_records: usize,
    pub suspect_records: usize,
    pub missing_records: usize,
    pub complete_records: usize,
}

/// The extremes of the temperatures of a set of records, in tenths of a
/// degree, and the sum and the number of the averages, from which their mean
/// follows.
#[derive(Debug, Clone, Copy, PartialEq, Eq, Structural)]
pub struct TemperatureStats {
    pub min_temp: Option<i32>,
    pub max_temp: Option<i32>,
    pub avg_sum: i128,
    pub avg_count: usize,
}

/// The span of the positions of a set of records, in micro-arcseconds.
#[derive(Debug, Clone, Copy, PartialEq, Eq, Structural)]
pub struct GeographicBounds {
    pub min_lat: i64,
    pub max_lat: i64,
    pub min_lon: i64,
    pub max_lon: i64,
}

/// The figures of a set of records.
#[derive(Debug, Clone, Copy)]
pub struct WeatherStatistics {
    pub total_records: usize,
    pub unique_stations: usize,
    pub date_range: (Date, Date),
    pub temperature_stats: TemperatureStats,
    pub data_quality: DataQuality,
    pub geographic_bounds: GeographicBounds,
}

/// Whether a temperature counts: it is not the sentinel and lies between -50
/// and 50 degrees.
pub open spec fn counts(t: i32) -> bool {
    t != MISSING_TEMPERATURE && MIN_VALID_TEMP <= t <= MAX_VALID_TEMP
}

/// How many of the records satisfy the test.
pub open spec fn number_of(rs: Seq<ConsolidatedView>, test: spec_fn(ConsolidatedView) -> bool)
    -> nat
    decreases rs.len(),
{
    if rs.len() == 0 {
        0
    } else {
        number_of(rs.drop_last(), test) + if test(rs.last()) {
            1nat
        } else {
            0nat
        }
    }
}

/// How many records have the three flags for valid.
pub open spec fn valid_count(rs: Seq<ConsolidatedView>) -> nat {
    number_of(rs, |r: ConsolidatedView| r.quality_flags == "000"@)
}

/// How many records have a flag for suspect.
pub open spec fn suspect_count(rs: Seq<ConsolidatedView>) -> nat {
    number_of(rs, |r: ConsolidatedView| r.quality_flags.contains('1'))
}

/// How many records have a flag for missing.
pub open spec fn missing_count(rs: Seq<ConsolidatedView>) -> nat {
    number_of(rs, |r: ConsolidatedView| r.quality_flags.contains('9'))
}

/// How many records have no flag for missing.
pub open spec fn complete_count(rs: Seq<ConsolidatedView>) -> nat {
    number_of(rs, |r: ConsolidatedView| !r.quality_flags.contains('9'))
}

/// How many records have an average temperature that counts.
pub open spec fn average_count(rs: Seq<ConsolidatedView>) -> nat {
    number_of(rs, |r: ConsolidatedView| counts(r.avg_temp))
}

/// The least minimum temperature that counts.
pub open spec fn least_minimum(rs: Seq<ConsolidatedView>) -> Option<i32>
    decreases rs.len(),
{
    if rs.len() == 0 {
        None
    } else {
        let before = least_minimum(rs.drop_last());
        let t = rs.last().min_temp;
        if counts(t) && (before is None || t < before->0) {
            Some(t)
        } else {
            before
        }
    }
}

/// The greatest maximum temperature that counts.
pub open spec fn greatest_maximum(rs: Seq<ConsolidatedView>) -> Option<i32>
    decreases rs.len(),
{
    if rs.len() == 0 {
        None
    } else {
        let before = greatest_maximum(rs.drop_last());
        let t = rs.last().max_temp;
        if counts(t) && (before is None || t > before->0) {
            Some(t)
        } else {
            before
        }
    }
}

/// The sum of the average temperatures that count.
pub open spec fn sum_of_averages(rs: Seq<ConsolidatedView>) -> int
    decreases rs.len(),
{
    if rs.len() == 0 {
        0
    } else {
        sum_of_averages(rs.drop_last()) + if counts(rs.last().avg_temp) {
            rs.last().avg_temp as int
        } else {
            0int
        }
    }
}

pub open spec fn stations_of(rs: Seq<ConsolidatedView>) -> Set<u32>
    decreases rs.len(),
{
    if rs.len() == 0 {
        Set::empty()
    } else {
        stations_of(rs.drop_last()).insert(rs.last().station_id)
    }
}

/// The first and the last day of records, of which there is at least one.
pub open spec fn days_spanned(rs: Seq<ConsolidatedView>) -> (Date, Date)
    decreases rs.len(),
{
    if rs.len() <= 1 {
        (rs[0].date, rs[0].date)
    } else {
        let before = days_spanned(rs.drop_last());
        (earlier_of(before.0, rs.last().date), later_of(before.1, rs.last().date))
    }
}

pub open spec fn lower(a: i64, b: i64) -> i64 {
    if b < a {
        b
    } else {
        a
    }
}

pub open spec fn higher(a: i64, b: i64) -> i64 {
    if b > a {
        b
    } else {
        a
    }
}

/// The span of the positions of records, of which there is at least one.
pub open spec fn bounds_of(rs: Seq<ConsolidatedView>) -> GeographicBounds
    decreases rs.len(),
{
    if rs.len() <= 1 {
        GeographicBounds {
            min_lat: rs[0].latitude.micro_arcsec,
            max_lat: rs[0].latitude.micro_arcsec,
            min_lon: rs[0].longitude.micro_arcsec,
            max_lon: rs[0].longitude.micro_arcsec,
        }
    } else {
        let before = bounds_of(rs.drop_last());
        let r = rs.last();
        GeographicBounds {
            min_lat: lower(before.min_lat, r.latitude.micro_arcsec),
            max_lat: higher(before.max_lat, r.latitude.micro_arcsec),
            min_lon: lower(before.min_lon, r.longitude.micro_arcsec),
            max_lon: higher(before.max_lon, r.longitude.micro_arcsec),
        }
    }
}

proof fn lemma_sum_bounded(rs: Seq<ConsolidatedView>)
    ensures
        -500 * rs.len() <= sum_of_averages(rs) <= 500 * rs.len(),
    decreases rs.len(),
{
    if rs.len() > 0 {
        lemma_sum_bounded(rs.drop_last());
    }
}

fn temperature_counts(t: i32) -> (r: bool)
    ensures
        r == counts(t),
{
    t != MISSING_TEMPERATURE && MIN_VALID_TEMP <= t && t <= MAX_VALID_TEMP
}

/// Draws figures from sets of consolidated records.
pub struct WeatherAnalyzer;

impl WeatherAnalyzer {
    pub fn new() -> (a: WeatherAnalyzer) {
        WeatherAnalyzer
    }

    /// The figures of a set of records; a set without records has none.
    pub fn calculate_statistics(&self, records: &Vec<ConsolidatedRecord>) -> (r: Result<
        WeatherStatistics,
        ProcessingError,
    >)
        ensures
            match r {
                Ok(s) => {
                    let rs = consolidated_views(records@);
                    &&& rs.len() > 0
                    &&& s.total_records == rs.len()
                    &&& s.unique_stations == stations_of(rs).len()
                    &&& s.date_range == days_spanned(rs)
                    &&& s.temperature_stats.min_temp == least_minimum(rs)
                    &&& s.temperature_stats.max_temp == greatest_maximum(rs)
                    &&& s.temperature_stats.avg_sum == sum_of_averages(rs)
                    &&& s.temperature_stats.avg_count == average_count(rs)
                    &&& s.data_quality.total_records == rs.len()
                    &&& s.data_quality.valid_records == valid_count(rs)
                    &&& s.data_quality.suspect_records == suspect_count(rs)
                    &&& s.data_quality.missing_records == missing_count(rs)
                    &&& s.data_quality.complete_records == complete_count(rs)
                    &&& s.geographic_bounds == bounds_of(rs)
                },
                Err(e) => records@.len() == 0 && e is Config,
            },
    {
        if records.len() == 0 {
            return Err(ProcessingError::Config(String::from_str("No records to analyze")));
        }
        let ghost rs = consolidated_views(records@);
        let first = &records[0];
        let mut stations: HashSet<u32> = HashSet::new();
        let mut span = (first.date, first.date);
        let mut bounds = GeographicBounds {
            min_lat: first.latitude.micro_arcsec,
            max_lat: first.latitude.micro_arcsec,
            min_lon: first.longitude.micro_arcsec,
            max_lon: first.longitude.micro_arcsec,
        };
        let mut min_temp: Option<i32> = None;
        let mut max_temp: Option<i32> = None;
        let mut avg_sum: i128 = 0;
        let mut avg_count: usize = 0;
        let mut valid: usize = 0;
        let mut suspect: usize = 0;
        let mut missing: usize = 0;
        let mut complete: usize = 0;
        let mut i: usize = 0;
        assert(rs.take(0) =~= Seq::<ConsolidatedView>::empty());
        while i < records.len()
            invariant
                i <= records.len(),
                records.len() > 0,
                rs == consolidated_views(records@),
                stations@ == stations_of(rs.take(i as int)),
                i > 0 ==> span == days_spanned(rs.take(i as int)),
                i > 0 ==> bounds == bounds_of(rs.take(i as int)),
                i == 0 ==> span == (rs[0].date, rs[0].date) && bounds == (GeographicBounds {
                    min_lat: rs[0].latitude.micro_arcsec,
                    max_lat: rs[0].latitude.micro_arcsec,
                    min_lon: rs[0].longitude.micro_arcsec,
                    max_lon: rs[0].longitude.micro_arcsec,
                }),
                min_temp == least_minimum(rs.take(i as int)),
                max_temp == greatest_maximum(rs.take(i as int)),
                avg_sum == sum_of_averages(rs.take(i as int)),
                avg_count == average_count(rs.take(i as int)),
                valid == valid_count(rs.take(i as int)),
                suspect == suspect_count(rs.take(i as int)),
                missing == missing_count(rs.take(i as int)),
                complete == complete_count(rs.take(i as int)),
                avg_count <= i && valid <= i && suspect <= i && missing <= i && complete <= i,
            decreases records.len() - i,
        {
            let record = &records[i];
            proof {
                let next = rs.take(i as int + 1);
                assert(next.drop_last() =~= rs.take(i as int));
                assert(next.last() == record@);
                assert(next[0] == rs[0]);
                lemma_sum_bounded(rs.take(i as int));
            }
            stations.insert(record.station_id);
            span = (span.0.earlier(record.date), span.1.later(record.date));
            if record.latitude.micro_arcsec < bounds.min_lat {
                bounds.min_lat = record.latitude.micro_arcsec;
            }
            if record.latitude.micro_arcsec > bounds.max_lat {
                bounds.max_lat = record.latitude.micro_arcsec;
            }
            if record.longitude.micro_arcsec < bounds.min_lon {
                bounds.min_lon = record.longitude.micro_arcsec;
            }
            if record.longitude.micro_arcsec > bounds.max_lon {
                bounds.max_lon = record.longitude.micro_arcsec;
            }
            if temperature_counts(record.min_temp) {
                let better = match min_temp {
                    Some(m) => record.min_temp < m,
                    None => true,
                };
                if better {
                    min_temp = Some(record.min_temp);
                }
            }
            if temperature_counts(record.max_temp) {
                let better = match max_temp {
                    Some(m) => record.max_temp > m,
                    None => true,
                };
                if better {
                    max_temp = Some(record.max_temp);
                }
            }
            if temperature_counts(record.avg_temp) {
                avg_sum = avg_sum + record.avg_temp as i128;
                avg_count += 1;
            }
            if record.has_valid_data() {
                valid += 1;
            }
            if record.has_suspect_data() {
                suspect += 1;
            }
            if record.has_missing_data() {
                missing += 1;
            }
            if record.is_complete() {
                complete += 1;
            }
            i += 1;
        }
        proof {
            assert(rs.take(records.len() as int) =~= rs);
            broadcast use vstd::std_specs::hash::group_hash_axioms;

        }
        Ok(
            WeatherStatistics {
                total_records: records.len(),
                unique_stations: stations.len(),
                date_range: span,
                temperature_stats: TemperatureStats { min_temp, max_temp, avg_sum, avg_count },
                data_quality: DataQuality {
                    total_records: records.len(),
                    valid_records: valid,
                    suspect_records: suspect,
                    missing_records: missing,
                    complete_records: complete,
                },
                geographic_bounds: bounds,
            },
        )
    }
}

} // verus!
