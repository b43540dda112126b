//! Integrity of a sequence of unified records: how the records are flagged,
//! which of them break the relations of their temperatures or leave the
//! accepted range, where a station's temperatures jump from one record to the
//! next, and what each station shows in sum.

use vstd::prelude::*;
use vstd::string::*;
use crate::archive::record_table::{key_of, record_key_of};
use crate::error::ProcessingError;
use crate::models::date::Date;
use crate::models::weather::{WeatherRecord, WeatherRecordView, RELATION_TOLERANCE};
use crate::utils::table::{
    has_key,
    lemma_rank_bounds,
    rank_of,
    OrderedTable,
    TableView,
};
use crate::utils::text::{append_tenths, tenths_repr};

verus! {

/// What a violation is about.
#[derive(Debug, Clone, Copy, PartialEq, Eq, Structural)]
pub enum ViolationType {
    MinGreaterThanAvg,
    AvgGreaterThanMax,
    OutOfRange,
    SuspiciousJump,
}

/// One finding about the temperatures of a station and day.
#[derive(Debug, Clone)]
pub struct TemperatureViolation {
    pub station_id: u32,
    pub date: Date,
    pub violation_type: ViolationType,
    pub details: String,
}

/// A violation with its text as a sequence of characters.
pub struct ViolationView {
    pub station_id: u32,
    pub date: Date,
    pub violation_type: ViolationType,
    pub details: Seq<char>,
}

impl View for TemperatureViolation {
    type V = ViolationView;

    open spec fn view(&self) -> ViolationView {
        ViolationView {
            station_id: self.station_id,
            date: self.date,
            violation_type: self.violation_type,
            details: self.details@,
        }
    }
}

impl TemperatureViolation {
    /// A copy of the violation.
    pub fn duplicate(&self) -> (r: TemperatureViolation)
        ensures
            r@ == self@,
    {
        TemperatureViolation {
            station_id: self.station_id,
            date: self.date,
            violation_type: self.violation_type,
            details: self.details.clone(),
        }
    }
}

/// What the records of one station show in sum. Temperatures are in tenths of
/// a degree.
#[derive(Debug, Clone, Copy, PartialEq, Eq, Structural)]
pub struct StationStatistics {
    pub total_records: usize,
    pub valid_records: usize,
    pub suspect_records: usize,
    pub missing_data_records: usize,
    /// The least minimum temperature seen.
    pub min_temp: Option<i32>,
    /// The greatest minimum temperature seen.
    pub max_temp: Option<i32>,
    /// The running mean of the average temperatures: each new value is
    /// averaged with the mean so far.
    pub avg_temp: Option<i32>,
}

/// The result of an integrity check.
#[derive(Debug, Clone)]
pub struct IntegrityReport {
    pub total_records: usize,
    pub valid_records: usize,
    pub suspect_records: usize,
    pub invalid_records: usize,
    pub missing_data_records: usize,
    pub temperature_violations: Vec<TemperatureViolation>,
    /// The statistics of each station, under the station's number.
    pub station_statistics: OrderedTable<StationStatistics>,
}

/// A report as plain values.
pub struct IntegrityReportView {
    pub total_records: nat,
    pub valid_records: nat,
    pub suspect_records: nat,
    pub invalid_records: nat,
    pub missing_data_records: nat,
    pub temperature_violations: Seq<ViolationView>,
    pub station_statistics: TableView<StationStatistics>,
}

pub open spec fn violation_views(vs: Seq<TemperatureViolation>) -> Seq<ViolationView> {
    vs.map_values(|v: TemperatureViolation| v@)
}

impl View for IntegrityReport {
    type V = IntegrityReportView;

    open spec fn view(&self) -> IntegrityReportView {
        IntegrityReportView {
            total_records: self.total_records as nat,
            valid_records: self.valid_records as nat,
            suspect_records: self.suspect_records as nat,
            invalid_records: self.invalid_records as nat,
            missing_data_records: self.missing_data_records as nat,
            temperature_violations: violation_views(self.temperature_violations@),
            station_statistics: self.station_statistics@,
        }
    }
}

/// How the flags of a record class it.
#[derive(Debug, Clone, Copy, PartialEq, Eq, Structural)]
pub enum RecordClass {
    Valid,
    Suspect,
    Missing,
    Invalid,
}

/// A record is valid if every flag that is there is the mark for valid;
/// otherwise suspect if a flag holds the mark for suspect; otherwise missing
/// if a flag holds the mark for missing; otherwise invalid.
pub open spec fn record_class(r: WeatherRecordView) -> RecordClass {
    if r.all_flags_clean() {
        RecordClass::Valid
    } else if r.has_suspect_data() {
        RecordClass::Suspect
    } else if r.has_missing_data() {
        RecordClass::Missing
    } else {
        RecordClass::Invalid
    }
}

/// How many of the records are of the class.
pub open spec fn count_of(rs: Seq<WeatherRecordView>, class: RecordClass) -> nat
    decreases rs.len(),
{
    if rs.len() == 0 {
        0
    } else {
        count_of(rs.drop_last(), class) + if record_class(rs.last()) == class {
            1nat
        } else {
            0nat
        }
    }
}

/// The sentinel that stands for an absent value in the files.
pub const MISSING_VALUE: i32 = -9999;

/// The range outside of which a temperature is reported, in tenths of a degree.
pub const REPORT_TEMP_LOW: i32 = -500;

pub const REPORT_TEMP_HIGH: i32 = 500;

/// The jump between two records of a station that is reported, in tenths of a
/// degree.
pub const JUMP_THRESHOLD: i32 = 200;

pub open spec fn slot_out_of_range(slot: Option<i32>) -> bool {
    slot matches Some(t) && t != MISSING_VALUE && !(REPORT_TEMP_LOW <= t <= REPORT_TEMP_HIGH)
}

/// Some temperature of the record, the sentinel aside, lies outside -50 to 50
/// degrees.
pub open spec fn flagged_out_of_range(r: WeatherRecordView) -> bool {
    slot_out_of_range(r.temp_min) || slot_out_of_range(r.temp_max) || slot_out_of_range(
        r.temp_avg,
    )
}

pub open spec fn relation_details(first: Seq<char>, a: i32, second: Seq<char>, b: i32) -> Seq<
    char,
> {
    first + tenths_repr(a as int) + second + tenths_repr(b as int) + " (tolerance=1.0)"@
}

/// The violation of the order of the temperatures that a record shows, if
/// any: a minimum above the average is named first.
pub open spec fn ordering_violation(r: WeatherRecordView) -> Seq<ViolationView> {
    if r.min_exceeds_avg() {
        seq![
            ViolationView {
                station_id: r.station_id,
                date: r.date,
                violation_type: ViolationType::MinGreaterThanAvg,
                details: relation_details(
                    "Min temperature "@,
                    r.temp_min->0,
                    " > Avg temperature "@,
                    r.temp_avg->0,
                ),
            },
        ]
    } else if r.avg_exceeds_max() {
        seq![
            ViolationView {
                station_id: r.station_id,
                date: r.date,
                violation_type: ViolationType::AvgGreaterThanMax,
                details: relation_details(
                    "Avg temperature "@,
                    r.temp_avg->0,
                    " > Max temperature "@,
                    r.temp_max->0,
                ),
            },
        ]
    } else {
        Seq::empty()
    }
}

pub open spec fn range_violation(r: WeatherRecordView) -> Seq<ViolationView> {
    if flagged_out_of_range(r) {
        seq![
            ViolationView {
                station_id: r.station_id,
                date: r.date,
                violation_type: ViolationType::OutOfRange,
                details: "temperature is outside valid range [-50, 50]"@,
            },
        ]
    } else {
        Seq::empty()
    }
}

/// What one record by itself is reported for.
pub open spec fn record_violations(r: WeatherRecordView) -> Seq<ViolationView> {
    ordering_violation(r) + range_violation(r)
}

/// What the records are reported for, each by itself, in their order.
pub open spec fn violations_of_records(rs: Seq<WeatherRecordView>) -> Seq<ViolationView>
    decreases rs.len(),
{
    if rs.len() == 0 {
        Seq::empty()
    } else {
        violations_of_records(rs.drop_last()) + record_violations(rs.last())
    }
}

/// The temperatures of one station and day.
#[derive(Debug, Clone, Copy, PartialEq, Eq, Structural)]
pub struct SeriesPoint {
    pub station_id: u32,
    pub date: Date,
    pub temp_min: Option<i32>,
    pub temp_max: Option<i32>,
    pub temp_avg: Option<i32>,
}

pub open spec fn point_of(r: WeatherRecordView) -> SeriesPoint {
    SeriesPoint {
        station_id: r.station_id,
        date: r.date,
        temp_min: r.temp_min,
        temp_max: r.temp_max,
        temp_avg: r.temp_avg,
    }
}

/// The temperatures of the records in the order of station and day. Of
/// several records for one station and day the last counts.
pub open spec fn series_of(rs: Seq<WeatherRecordView>) -> TableView<SeriesPoint>
    decreases rs.len(),
{
    if rs.len() == 0 {
        TableView::empty()
    } else {
        series_of(rs.drop_last()).put(key_of(rs.last()), point_of(rs.last()))
    }
}

/// How far two values are apart.
pub open spec fn distance(a: i32, b: i32) -> int {
    if a >= b {
        a - b
    } else {
        b - a
    }
}

/// Both values are there and more than the threshold apart.
pub open spec fn slot_jumps(prev: Option<i32>, curr: Option<i32>, threshold: i32) -> bool {
    prev is Some && curr is Some && distance(curr->0, prev->0) > threshold
}

pub open spec fn jump_details(name: Seq<char>, jump: int, from: Date, to: Date) -> Seq<char> {
    name + " temperature jumped "@ + tenths_repr(jump) + "°C from "@ + from.text() + " to "@
        + to.text()
}

/// The jump of one temperature between two records, if it is reported.
pub open spec fn slot_jump_violation(
    name: Seq<char>,
    prev: Option<i32>,
    curr: Option<i32>,
    from: SeriesPoint,
    to: SeriesPoint,
    threshold: i32,
) -> Seq<ViolationView> {
    if slot_jumps(prev, curr, threshold) {
        seq![
            ViolationView {
                station_id: to.station_id,
                date: to.date,
                violation_type: ViolationType::SuspiciousJump,
                details: jump_details(name, distance(curr->0, prev->0), from.date, to.date),
            },
        ]
    } else {
        Seq::empty()
    }
}

/// The jumps between a record and the next one of the same station:
/// minimum, maximum and average in this order, one violation for each
/// temperature that both records have and that differs by more than the
/// threshold, and none otherwise.
pub open spec fn pair_jumps(prev: SeriesPoint, curr: SeriesPoint, threshold: i32) -> Seq<
    ViolationView,
> {
    if prev.station_id != curr.station_id {
        Seq::empty()
    } else {
        slot_jump_violation("min"@, prev.temp_min, curr.temp_min, prev, curr, threshold)
            + slot_jump_violation("max"@, prev.temp_max, curr.temp_max, prev, curr, threshold)
            + slot_jump_violation("avg"@, prev.temp_avg, curr.temp_avg, prev, curr, threshold)
    }
}

/// The jumps between each point and the next in a sequence.
pub open spec fn jump_violations(points: Seq<SeriesPoint>, threshold: i32) -> Seq<ViolationView>
    decreases points.len(),
{
    if points.len() < 2 {
        Seq::empty()
    } else {
        jump_violations(points.drop_last(), threshold) + pair_jumps(
            points[points.len() - 2],
            points.last(),
            threshold,
        )
    }
}

pub open spec fn no_statistics() -> StationStatistics {
    StationStatistics {
        total_records: 0,
        valid_records: 0,
        suspect_records: 0,
        missing_data_records: 0,
        min_temp: None,
        max_temp: None,
        avg_temp: None,
    }
}

/// Half of a number, rounded towards zero.
pub open spec fn half_towards_zero(x: int) -> int {
    if x >= 0 {
        x / 2
    } else {
        -((-x) / 2)
    }
}

pub open spec fn least(a: Option<i32>, t: i32) -> i32 {
    match a {
        Some(c) => if c <= t {
            c
        } else {
            t
        },
        None => t,
    }
}

pub open spec fn greatest(a: Option<i32>, t: i32) -> i32 {
    match a {
        Some(c) => if c >= t {
            c
        } else {
            t
        },
        None => t,
    }
}

pub open spec fn mean_with(a: Option<i32>, t: i32) -> i32 {
    match a {
        Some(c) => half_towards_zero(c + t) as i32,
        None => t,
    }
}

/// The statistics of a station after one more of its records.
pub open spec fn statistics_with(s: StationStatistics, r: WeatherRecordView) -> StationStatistics {
    let class = record_class(r);
    StationStatistics {
        total_records: (s.total_records + 1) as usize,
        valid_records: if class == RecordClass::Valid {
            (s.valid_records + 1) as usize
        } else {
            s.valid_records
        },
        suspect_records: if class == RecordClass::Suspect {
            (s.suspect_records + 1) as usize
        } else {
            s.suspect_records
        },
        missing_data_records: if class == RecordClass::Missing {
            (s.missing_data_records + 1) as usize
        } else {
            s.missing_data_records
        },
        min_temp: match r.temp_min {
            Some(t) => Some(least(s.min_temp, t)),
            None => s.min_temp,
        },
        max_temp: match r.temp_min {
            Some(t) => Some(greatest(s.max_temp, t)),
            None => s.max_temp,
        },
        avg_temp: match r.temp_avg {
            Some(t) => Some(mean_with(s.avg_temp, t)),
            None => s.avg_temp,
        },
    }
}

pub open spec fn station_key(station_id: u32) -> u128 {
    station_id as u128
}

/// The statistics of each station after the records, taken in their order.
pub open spec fn station_statistics_of(rs: Seq<WeatherRecordView>) -> TableView<StationStatistics>
    decreases rs.len(),
{
    if rs.len() == 0 {
        TableView::empty()
    } else {
        let before = station_statistics_of(rs.drop_last());
        let key = station_key(rs.last().station_id);
        let so_far = match before.get(key) {
            Some(s) => s,
            None => no_statistics(),
        };
        before.put(key, statistics_with(so_far, rs.last()))
    }
}

/// The report on a sequence of records.
pub open spec fn report_of(rs: Seq<WeatherRecordView>, threshold: i32) -> IntegrityReportView {
    IntegrityReportView {
        total_records: rs.len(),
        valid_records: count_of(rs, RecordClass::Valid),
        suspect_records: count_of(rs, RecordClass::Suspect),
        invalid_records: count_of(rs, RecordClass::Invalid),
        missing_data_records: count_of(rs, RecordClass::Missing),
        temperature_violations: violations_of_records(rs) + jump_violations(
            series_of(rs).values,
            threshold,
        ),
        station_statistics: station_statistics_of(rs),
    }
}

pub open spec fn record_views(rs: Seq<WeatherRecord>) -> Seq<WeatherRecordView> {
    rs.map_values(|r: WeatherRecord| r@)
}

/// Every record falls in exactly one class, so the four counts sum to the
/// number of records.
pub proof fn lemma_counts_partition(rs: Seq<WeatherRecordView>)
    ensures
        count_of(rs, RecordClass::Valid) + count_of(rs, RecordClass::Suspect) + count_of(
            rs,
            RecordClass::Missing,
        ) + count_of(rs, RecordClass::Invalid) == rs.len(),
    decreases rs.len(),
{
    if rs.len() > 0 {
        lemma_counts_partition(rs.drop_last());
    }
}

/// A record whose three temperatures are out of order is reported for it, and
/// a record whose temperatures are in order is not.
pub proof fn lemma_ordering_reported(r: WeatherRecordView)
    ensures
        r.temperatures_ordered() <==> ordering_violation(r).len() == 0,
        !r.temperatures_ordered() ==> ordering_violation(r).len() == 1 && (
        ordering_violation(r)[0].violation_type == ViolationType::MinGreaterThanAvg
            || ordering_violation(r)[0].violation_type == ViolationType::AvgGreaterThanMax),
{
}

/// Between two records of one station, a temperature that both have is
/// reported as a jump if and only if it differs by more than the threshold.
pub proof fn lemma_jump_reported(prev: SeriesPoint, curr: SeriesPoint, threshold: i32)
    requires
        prev.station_id == curr.station_id,
    ensures
        pair_jumps(prev, curr, threshold).len() == (if slot_jumps(
            prev.temp_min,
            curr.temp_min,
            threshold,
        ) {
            1int
        } else {
            0int
        }) + (if slot_jumps(prev.temp_max, curr.temp_max, threshold) {
            1int
        } else {
            0int
        }) + (if slot_jumps(prev.temp_avg, curr.temp_avg, threshold) {
            1int
        } else {
            0int
        }),
        forall|i: int|
            0 <= i < pair_jumps(prev, curr, threshold).len() ==> (#[trigger] pair_jumps(
                prev,
                curr,
                threshold,
            )[i]).violation_type == ViolationType::SuspiciousJump,
{
}

fn classify(r: &WeatherRecord) -> (c: RecordClass)
    ensures
        c == record_class(r@),
{
    if r.all_flags_clean() {
        RecordClass::Valid
    } else if r.has_suspect_data() {
        RecordClass::Suspect
    } else if r.has_missing_data() {
        RecordClass::Missing
    } else {
        RecordClass::Invalid
    }
}

fn out_of_range(slot: Option<i32>) -> (r: bool)
    ensures
        r == slot_out_of_range(slot),
{
    match slot {
        Some(t) => t != MISSING_VALUE && (t < REPORT_TEMP_LOW || t > REPORT_TEMP_HIGH),
        None => false,
    }
}

fn relation_text(first: &str, a: i32, second: &str, b: i32) -> (s: String)
    ensures
        s@ == relation_details(first@, a, second@, b),
{
    let mut s = String::from_str(first);
    append_tenths(&mut s, a as i64);
    s.append(second);
    append_tenths(&mut s, b as i64);
    s.append(" (tolerance=1.0)");
    assert(s@ =~= relation_details(first@, a, second@, b));
    s
}

/// Appends what one record by itself is reported for.
fn push_record_violations(out: &mut Vec<TemperatureViolation>, r: &WeatherRecord)
    ensures
        violation_views(final(out)@) == violation_views(old(out)@) + record_violations(r@),
{
    let ghost before = violation_views(out@);
    match (r.temp_min, r.temp_avg, r.temp_max) {
        (Some(min), Some(avg), Some(max)) => {
            if min as i64 > avg as i64 + RELATION_TOLERANCE as i64 {
                out.push(
                    TemperatureViolation {
                        station_id: r.station_id,
                        date: r.date,
                        violation_type: ViolationType::MinGreaterThanAvg,
                        details: relation_text("Min temperature ", min, " > Avg temperature ", avg),
                    },
                );
            } else if avg as i64 > max as i64 + RELATION_TOLERANCE as i64 {
                out.push(
                    TemperatureViolation {
                        station_id: r.station_id,
                        date: r.date,
                        violation_type: ViolationType::AvgGreaterThanMax,
                        details: relation_text("Avg temperature ", avg, " > Max temperature ", max),
                    },
                );
            }
        },
        _ => {},
    }
    assert(violation_views(out@) =~= before + ordering_violation(r@));
    if out_of_range(r.temp_min) || out_of_range(r.temp_max) || out_of_range(r.temp_avg) {
        out.push(
            TemperatureViolation {
                station_id: r.station_id,
                date: r.date,
                violation_type: ViolationType::OutOfRange,
                details: String::from_str("temperature is outside valid range [-50, 50]"),
            },
        );
    }
    assert(violation_views(out@) =~= before + record_violations(r@));
}

fn distance_of(a: i32, b: i32) -> (d: i64)
    ensures
        d == distance(a, b),
{
    if a >= b {
        a as i64 - b as i64
    } else {
        b as i64 - a as i64
    }
}

fn jump_text(name: &str, jump: i64, from: &Date, to: &Date) -> (s: String)
    ensures
        s@ == jump_details(name@, jump as int, *from, *to),
{
    let mut s = String::from_str(name);
    s.append(" temperature jumped ");
    append_tenths(&mut s, jump);
    s.append("°C from ");
    s.append(from.to_text().as_str());
    s.append(" to ");
    s.append(to.to_text().as_str());
    assert(s@ =~= jump_details(name@, jump as int, *from, *to));
    s
}

fn push_slot_jump(
    out: &mut Vec<TemperatureViolation>,
    name: &str,
    prev: Option<i32>,
    curr: Option<i32>,
    from: &SeriesPoint,
    to: &SeriesPoint,
    threshold: i32,
)
    ensures
        violation_views(final(out)@) == violation_views(old(out)@) + slot_jump_violation(
            name@,
            prev,
            curr,
            *from,
            *to,
            threshold,
        ),
{
    let ghost before = violation_views(out@);
    match (prev, curr) {
        (Some(p), Some(c)) => {
            let jump = distance_of(c, p);
            if jump > threshold as i64 {
                out.push(
                    TemperatureViolation {
                        station_id: to.station_id,
                        date: to.date,
                        violation_type: ViolationType::SuspiciousJump,
                        details: jump_text(name, jump, &from.date, &to.date),
                    },
                );
            }
        },
        _ => {},
    }
    assert(violation_views(out@) =~= before + slot_jump_violation(
        name@,
        prev,
        curr,
        *from,
        *to,
        threshold,
    ));
}

/// Appends the jumps between a record and the next.
fn push_pair_jumps(
    out: &mut Vec<TemperatureViolation>,
    prev: &SeriesPoint,
    curr: &SeriesPoint,
    threshold: i32,
)
    ensures
        violation_views(final(out)@) == violation_views(old(out)@) + pair_jumps(
            *prev,
            *curr,
            threshold,
        ),
{
    let ghost before = violation_views(out@);
    if prev.station_id == curr.station_id {
        push_slot_jump(out, "min", prev.temp_min, curr.temp_min, prev, curr, threshold);
        push_slot_jump(out, "max", prev.temp_max, curr.temp_max, prev, curr, threshold);
        push_slot_jump(out, "avg", prev.temp_avg, curr.temp_avg, prev, curr, threshold);
    }
    assert(violation_views(out@) =~= before + pair_jumps(*prev, *curr, threshold));
}

fn half(x: i64) -> (h: i64)
    requires
        -0x1_0000_0000 <= x <= 0x1_0000_0000,
    ensures
        h == half_towards_zero(x as int),
{
    if x >= 0 {
        x / 2
    } else {
        -((-x) / 2)
    }
}

/// Counts of a station that do not exceed `n`.
pub open spec fn counts_within(s: StationStatistics, n: int) -> bool {
    s.total_records <= n && s.valid_records <= n && s.suspect_records <= n
        && s.missing_data_records <= n
}

fn updated_statistics(s: StationStatistics, r: &WeatherRecord, class: RecordClass) -> (n:
    StationStatistics)
    requires
        class == record_class(r@),
        s.total_records < usize::MAX,
        s.valid_records < usize::MAX,
        s.suspect_records < usize::MAX,
        s.missing_data_records < usize::MAX,
    ensures
        n == statistics_with(s, r@),
{
    let min_temp = match r.temp_min {
        Some(t) => Some(
            match s.min_temp {
                Some(c) => if c <= t {
                    c
                } else {
                    t
                },
                None => t,
            },
        ),
        None => s.min_temp,
    };
    let max_temp = match r.temp_min {
        Some(t) => Some(
            match s.max_temp {
                Some(c) => if c >= t {
                    c
                } else {
                    t
                },
                None => t,
            },
        ),
        None => s.max_temp,
    };
    let avg_temp = match r.temp_avg {
        Some(t) => Some(
            match s.avg_temp {
                Some(c) => half(c as i64 + t as i64) as i32,
                None => t,
            },
        ),
        None => s.avg_temp,
    };
    StationStatistics {
        total_records: s.total_records + 1,
        valid_records: if class == RecordClass::Valid {
            s.valid_records + 1
        } else {
            s.valid_records
        },
        suspect_records: if class == RecordClass::Suspect {
            s.suspect_records + 1
        } else {
            s.suspect_records
        },
        missing_data_records: if class == RecordClass::Missing {
            s.missing_data_records + 1
        } else {
            s.missing_data_records
        },
        min_temp,
        max_temp,
        avg_temp,
    }
}

/// Checks sequences of records for their integrity.
pub struct IntegrityChecker {
    temperature_jump_threshold: i32,
}

impl IntegrityChecker {
    /// The jump between two records of a station that this checker reports,
    /// in tenths of a degree.
    pub closed spec fn threshold(&self) -> i32 {
        self.temperature_jump_threshold
    }

    /// A checker that reports jumps of more than 20 degrees.
    pub fn new() -> (c: IntegrityChecker)
        ensures
            c.threshold() == JUMP_THRESHOLD,
    {
        IntegrityChecker { temperature_jump_threshold: JUMP_THRESHOLD }
    }

    /// A checker that reports jumps of more than 20 degrees. Violations are
    /// reported in either mode and never end a check.
    pub fn with_strict_mode(_strict_mode: bool) -> (c: IntegrityChecker)
        ensures
            c.threshold() == JUMP_THRESHOLD,
    {
        IntegrityChecker { temperature_jump_threshold: JUMP_THRESHOLD }
    }

    /// The report on the records.
    pub fn check_integrity(&self, records: &Vec<WeatherRecord>) -> (r: Result<
        IntegrityReport,
        ProcessingError,
    >)
        ensures
            r matches Ok(report) && report@ == report_of(record_views(records@), self.threshold())
                && report.station_statistics.wf(),
    {
        let ghost views = record_views(records@);
        let mut valid: usize = 0;
        let mut suspect: usize = 0;
        let mut invalid: usize = 0;
        let mut missing: usize = 0;
        let mut violations: Vec<TemperatureViolation> = Vec::new();
        let mut stations: OrderedTable<StationStatistics> = OrderedTable::new();
        let mut series: OrderedTable<SeriesPoint> = OrderedTable::new();
        let mut i: usize = 0;
        assert(views.take(0) =~= Seq::<WeatherRecordView>::empty());
        assert(violation_views(violations@) =~= Seq::<ViolationView>::empty());
        while i < records.len()
            invariant
                i <= records.len(),
                views == record_views(records@),
                valid == count_of(views.take(i as int), RecordClass::Valid),
                suspect == count_of(views.take(i as int), RecordClass::Suspect),
                invalid == count_of(views.take(i as int), RecordClass::Invalid),
                missing == count_of(views.take(i as int), RecordClass::Missing),
                valid <= i && suspect <= i && invalid <= i && missing <= i,
                violation_views(violations@) == violations_of_records(views.take(i as int)),
                stations.wf(),
                stations@ == station_statistics_of(views.take(i as int)),
                forall|j: int|
                    0 <= j < stations.values@.len() ==> counts_within(
                        #[trigger] stations.values@[j],
                        i as int,
                    ),
                series.wf(),
                series@ == series_of(views.take(i as int)),
            decreases records.len() - i,
        {
            let record = &records[i];
            proof {
                assert(views.take(i as int + 1).drop_last() =~= views.take(i as int));
                assert(views.take(i as int + 1).last() == record@);
            }
            let class = classify(record);
            match class {
                RecordClass::Valid => {
                    valid += 1;
                },
                RecordClass::Suspect => {
                    suspect += 1;
                },
                RecordClass::Missing => {
                    missing += 1;
                },
                RecordClass::Invalid => {
                    invalid += 1;
                },
            }
            push_record_violations(&mut violations, record);
            let key = record.station_id as u128;
            let so_far = match stations.find(key) {
                Some(p) => stations.values[p],
                None => StationStatistics {
                    total_records: 0,
                    valid_records: 0,
                    suspect_records: 0,
                    missing_data_records: 0,
                    min_temp: None,
                    max_temp: None,
                    avg_temp: None,
                },
            };
            let next = updated_statistics(so_far, record, class);
            let ghost old_values = stations.values@;
            let ghost old_keys = stations.keys@;
            stations.put(key, next);
            proof {
                let p = rank_of(old_keys, key);
                lemma_rank_bounds(old_keys, key);
                assert(counts_within(next, i as int + 1));
                assert forall|j: int| 0 <= j < stations.values@.len() implies counts_within(
                    #[trigger] stations.values@[j],
                    i as int + 1,
                ) by {
                    if has_key(old_keys, key) {
                        if j != p {
                            assert(stations.values@[j] == old_values[j]);
                        }
                    } else {
                        if j < p {
                            assert(stations.values@[j] == old_values[j]);
                        } else if j > p {
                            assert(stations.values@[j] == old_values[j - 1]);
                        }
                    }
                }
            }
            series.put(
                record_key_of(record.station_id, record.date),
                SeriesPoint {
                    station_id: record.station_id,
                    date: record.date,
                    temp_min: record.temp_min,
                    temp_max: record.temp_max,
                    temp_avg: record.temp_avg,
                },
            );
            i += 1;
        }
        assert(views.take(records.len() as int) =~= views);
        let mut jumps: Vec<TemperatureViolation> = Vec::new();
        let mut j: usize = 1;
        let ghost points = series.values@;
        assert(violation_views(jumps@) =~= Seq::<ViolationView>::empty());
        if series.values.len() >= 2 {
            assert(points.take(1).len() < 2);
            while j < series.values.len()
                invariant
                    1 <= j <= series.values@.len(),
                    points == series.values@,
                    violation_views(jumps@) == jump_violations(
                        points.take(j as int),
                        self.threshold(),
                    ),
                decreases series.values.len() - j,
            {
                proof {
                    let next = points.take(j as int + 1);
                    assert(next.drop_last() =~= points.take(j as int));
                    assert(next[next.len() - 2] == points[j as int - 1]);
                    assert(next.last() == points[j as int]);
                }
                push_pair_jumps(
                    &mut jumps,
                    &series.values[j - 1],
                    &series.values[j],
                    self.temperature_jump_threshold,
                );
                j += 1;
            }
            assert(points.take(points.len() as int) =~= points);
        }
        let mut k: usize = 0;
        let ghost base = violation_views(violations@);
        while k < jumps.len()
            invariant
                k <= jumps.len(),
                violation_views(violations@) == base + violation_views(jumps@).take(k as int),
            decreases jumps.len() - k,
        {
            let ghost before = violation_views(violations@);
            violations.push(jumps[k].duplicate());
            assert(violation_views(violations@) =~= before.push(jumps@[k as int]@));
            assert(violation_views(violations@) =~= base + violation_views(jumps@).take(
                k as int + 1,
            ));
            k += 1;
        }
        assert(violation_views(jumps@).take(jumps.len() as int) =~= violation_views(jumps@));
        Ok(
            IntegrityReport {
                total_records: records.len(),
                valid_records: valid,
                suspect_records: suspect,
                invalid_records: invalid,
                missing_data_records: missing,
                temperature_violations: violations,
                station_statistics: stations,
            },
        )
    }
}

} // verus!
