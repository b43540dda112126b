//! Unified records kept in the order of station and day, and how an
//! observation or another record enters them.

use vstd::prelude::*;
use vstd::string::*;
use crate::archive::{TemperatureType, WeatherMetric};
use crate::models::date::Date;
use crate::models::station::{StationMetadata, StationView};
use crate::models::temperature::TemperatureRecord;
use crate::models::weather::{duplicate_text, text_view, WeatherRecord, WeatherRecordView};
use crate::utils::table::{has_key, rank_of, strictly_increasing, OrderedTable};
use crate::utils::text::{chars_of, contains_spec, decimal_repr, decimal_string, find};

verus! {

/// The number under which the record of a station and day is filed: it rises
/// with the station first and the day second.
pub open spec fn record_key(station_id: u32, date: Date) -> u128 {
    ((station_id as int) * 0x1_0000_0000_0000_0000_0000_0000 + (date.year as int + 0x8000_0000)
        * 0x1_0000_0000_0000_0000 + (date.month as int) * 0x1_0000_0000 + (date.day as int)) as u128
}

/// Station and day of `a` come before those of `b`.
pub open spec fn comes_before(a: WeatherRecordView, b: WeatherRecordView) -> bool {
    a.station_id < b.station_id || (a.station_id == b.station_id && a.date.before(b.date))
}

/// The records stand in the order of station and day, no two of them for the
/// same station and day.
pub open spec fn sorted_by_station_and_date(rs: Seq<WeatherRecordView>) -> bool {
    forall|i: int, j: int| 0 <= i < j < rs.len() ==> comes_before(rs[i], rs[j])
}

pub open spec fn key_of(r: WeatherRecordView) -> u128 {
    record_key(r.station_id, r.date)
}

pub open spec fn keys_of(rs: Seq<WeatherRecordView>) -> Seq<u128> {
    rs.map_values(|r: WeatherRecordView| key_of(r))
}

/// The order of the keys is the order of station and day.
pub proof fn lemma_key_order(a_station: u32, a_date: Date, b_station: u32, b_date: Date)
    ensures
        record_key(a_station, a_date) < record_key(b_station, b_date) <==> (a_station < b_station
            || (a_station == b_station && a_date.before(b_date))),
        record_key(a_station, a_date) == record_key(b_station, b_date) <==> (a_station == b_station
            && a_date == b_date),
{
}

/// Records in the order of station and day hold no two records for one
/// station and day.
pub proof fn lemma_sorted_records_unique(rs: Seq<WeatherRecordView>)
    requires
        sorted_by_station_and_date(rs),
    ensures
        forall|i: int, j: int|
            0 <= i < rs.len() && 0 <= j < rs.len() && i != j ==> !(rs[i].station_id
                == rs[j].station_id && rs[i].date == rs[j].date),
{
    assert forall|i: int, j: int| 0 <= i < rs.len() && 0 <= j < rs.len() && i != j implies !(
    rs[i].station_id == rs[j].station_id && rs[i].date == rs[j].date) by {
        if i < j {
            assert(comes_before(rs[i], rs[j]));
        } else {
            assert(comes_before(rs[j], rs[i]));
        }
    }
}

/// Records filed under rising keys stand in the order of station and day.
pub proof fn lemma_rising_keys_sorted(rs: Seq<WeatherRecordView>)
    ensures
        strictly_increasing(keys_of(rs)) <==> sorted_by_station_and_date(rs),
{
    if strictly_increasing(keys_of(rs)) {
        assert forall|i: int, j: int| 0 <= i < j < rs.len() implies comes_before(rs[i], rs[j]) by {
            assert(keys_of(rs)[i] < keys_of(rs)[j]);
            lemma_key_order(rs[i].station_id, rs[i].date, rs[j].station_id, rs[j].date);
        }
    }
    if sorted_by_station_and_date(rs) {
        assert forall|i: int, j: int| 0 <= i < j < keys_of(rs).len() implies keys_of(rs)[i]
            < keys_of(rs)[j] by {
            assert(comes_before(rs[i], rs[j]));
            lemma_key_order(rs[i].station_id, rs[i].date, rs[j].station_id, rs[j].date);
        }
    }
}

pub fn record_key_of(station_id: u32, date: Date) -> (k: u128)
    ensures
        k == record_key(station_id, date),
{
    let year: u128 = (date.year as i64 + 0x8000_0000) as u128;
    (station_id as u128) * 0x1_0000_0000_0000_0000_0000_0000 + year * 0x1_0000_0000_0000_0000 + (
    date.month as u128) * 0x1_0000_0000 + (date.day as u128)
}

/// The records of a table.
pub open spec fn records_of(t: OrderedTable<WeatherRecord>) -> Seq<WeatherRecordView> {
    t.values@.map_values(|r: WeatherRecord| r@)
}

/// Each record of the table is filed under its own key, and the keys rise.
pub open spec fn is_record_table(t: OrderedTable<WeatherRecord>) -> bool {
    t.wf() && t.keys@ == keys_of(records_of(t))
}

/// Where the record of a station and day stands among sorted records, or
/// where it would go.
pub open spec fn place_of(rs: Seq<WeatherRecordView>, station_id: u32, date: Date) -> int {
    rank_of(keys_of(rs), record_key(station_id, date))
}

/// Whether sorted records hold one for the station and day.
pub open spec fn holds_record(rs: Seq<WeatherRecordView>, station_id: u32, date: Date) -> bool {
    has_key(keys_of(rs), record_key(station_id, date))
}

/// A record of a station and day without any value.
pub open spec fn fresh_record(station: StationView, date: Date) -> WeatherRecordView {
    WeatherRecordView {
        station_id: station.staid,
        station_name: station.name,
        date,
        latitude: station.latitude,
        longitude: station.longitude,
        temp_min: None,
        temp_max: None,
        temp_avg: None,
        precipitation: None,
        wind_speed: None,
        temp_quality: None,
        precip_quality: None,
        wind_quality: None,
        temp_validation: None,
        precip_validation: None,
        wind_validation: None,
    }
}

/// A temperature flag after one more source flag: the flag's digits are
/// appended unless the text holds them already.
pub open spec fn flag_joined(existing: Option<Seq<char>>, code: u8) -> Option<Seq<char>> {
    match existing {
        Some(q) => if contains_spec(q, decimal_repr(code as nat)) {
            Some(q)
        } else {
            Some(q + decimal_repr(code as nat))
        },
        None => Some(decimal_repr(code as nat)),
    }
}

/// The record after an observation of the given metric: the value fills the
/// metric's slot; a temperature flag joins the flags so far, a precipitation
/// or wind flag replaces the flag so far.
pub open spec fn with_value(r: WeatherRecordView, metric: WeatherMetric, obs: TemperatureRecord)
    -> WeatherRecordView {
    match metric {
        WeatherMetric::Temperature(TemperatureType::Minimum) => WeatherRecordView {
            temp_min: Some(obs.temperature),
            temp_quality: flag_joined(r.temp_quality, obs.quality_flag),
            ..r
        },
        WeatherMetric::Temperature(TemperatureType::Maximum) => WeatherRecordView {
            temp_max: Some(obs.temperature),
            temp_quality: flag_joined(r.temp_quality, obs.quality_flag),
            ..r
        },
        WeatherMetric::Temperature(TemperatureType::Average) => WeatherRecordView {
            temp_avg: Some(obs.temperature),
            temp_quality: flag_joined(r.temp_quality, obs.quality_flag),
            ..r
        },
        WeatherMetric::Precipitation => WeatherRecordView {
            precipitation: Some(obs.temperature),
            precip_quality: Some(decimal_repr(obs.quality_flag as nat)),
            ..r
        },
        WeatherMetric::WindSpeed => WeatherRecordView {
            wind_speed: Some(obs.temperature),
            wind_quality: Some(decimal_repr(obs.quality_flag as nat)),
            ..r
        },
    }
}

/// Sorted records after an observation for a station: the record of the
/// station and of the observation's day takes the value, and is made first
/// where there was none.
pub open spec fn with_observation(
    rs: Seq<WeatherRecordView>,
    station: StationView,
    metric: WeatherMetric,
    obs: TemperatureRecord,
) -> Seq<WeatherRecordView> {
    let p = place_of(rs, station.staid, obs.date);
    if holds_record(rs, station.staid, obs.date) {
        rs.update(p, with_value(rs[p], metric, obs))
    } else {
        rs.insert(p, with_value(fresh_record(station, obs.date), metric, obs))
    }
}

/// Sorted records after the observations of one file, taken in their order.
pub open spec fn with_observations(
    rs: Seq<WeatherRecordView>,
    station: StationView,
    metric: WeatherMetric,
    observations: Seq<TemperatureRecord>,
) -> Seq<WeatherRecordView>
    decreases observations.len(),
{
    if observations.len() == 0 {
        rs
    } else {
        with_observation(
            with_observations(rs, station, metric, observations.drop_last()),
            station,
            metric,
            observations.last(),
        )
    }
}

fn joined_flag(existing: &Option<String>, code: u8) -> (r: Option<String>)
    ensures
        text_view(r) == flag_joined(text_view(*existing), code),
{
    let digits = decimal_string(code as u64);
    match existing {
        Some(q) => {
            let have = chars_of(q.as_str());
            let want = chars_of(digits.as_str());
            let mut joined = q.clone();
            if find(&have, &want).is_none() {
                joined.append(digits.as_str());
            }
            Some(joined)
        },
        None => Some(digits),
    }
}

impl WeatherRecord {
    /// Takes an observation of the given metric into the record.
    pub fn apply_observation(&mut self, metric: WeatherMetric, obs: &TemperatureRecord)
        ensures
            final(self)@ == with_value(old(self)@, metric, *obs),
    {
        match metric {
            WeatherMetric::Temperature(kind) => {
                match kind {
                    TemperatureType::Minimum => {
                        self.temp_min = Some(obs.temperature);
                    },
                    TemperatureType::Maximum => {
                        self.temp_max = Some(obs.temperature);
                    },
                    TemperatureType::Average => {
                        self.temp_avg = Some(obs.temperature);
                    },
                }
                self.temp_quality = joined_flag(&self.temp_quality, obs.quality_flag);
            },
            WeatherMetric::Precipitation => {
                self.precipitation = Some(obs.temperature);
                self.precip_quality = Some(decimal_string(obs.quality_flag as u64));
            },
            WeatherMetric::WindSpeed => {
                self.wind_speed = Some(obs.temperature);
                self.wind_quality = Some(decimal_string(obs.quality_flag as u64));
            },
        }
    }

    /// A record of the station and the day without any value.
    pub fn fresh(station: &StationMetadata, date: Date) -> (r: WeatherRecord)
        ensures
            r@ == fresh_record(station@, date),
    {
        WeatherRecord {
            station_id: station.staid,
            station_name: station.name.clone(),
            date,
            latitude: station.latitude,
            longitude: station.longitude,
            temp_min: None,
            temp_max: None,
            temp_avg: None,
            precipitation: None,
            wind_speed: None,
            temp_quality: None,
            precip_quality: None,
            wind_quality: None,
            temp_validation: None,
            precip_validation: None,
            wind_validation: None,
        }
    }
}

/// Files one observation for a station in the table.
pub fn upsert_observation(
    table: &mut OrderedTable<WeatherRecord>,
    station: &StationMetadata,
    metric: WeatherMetric,
    obs: &TemperatureRecord,
)
    requires
        is_record_table(*old(table)),
    ensures
        is_record_table(*final(table)),
        records_of(*final(table)) == with_observation(
            records_of(*old(table)),
            station@,
            metric,
            *obs,
        ),
{
    let key = record_key_of(station.staid, obs.date);
    let p = table.position(key);
    let ghost before = records_of(*table);
    if table.holds_at(p, key) {
        proof {
            lemma_key_order(before[p as int].station_id, before[p as int].date, station.staid, obs.date);
        }
        table.values[p].apply_observation(metric, obs);
        proof {
            let after = records_of(*table);
            assert(after =~= before.update(p as int, with_value(before[p as int], metric, *obs)));
            assert(keys_of(after) =~= keys_of(before));
        }
    } else {
        let mut record = WeatherRecord::fresh(station, obs.date);
        record.apply_observation(metric, obs);
        let ghost added = record@;
        table.insert_at(p, key, record);
        proof {
            let after = records_of(*table);
            assert(after =~= before.insert(p as int, added));
            assert(keys_of(after) =~= keys_of(before).insert(p as int, key));
        }
    }
}

} // verus!

verus! {

/// The record after the values of another for the same station and day:
/// each value and each flag of `source` that is there takes the place of the
/// one in `target`, and the assessments are computed anew.
pub open spec fn merged_record(target: WeatherRecordView, source: WeatherRecordView)
    -> WeatherRecordView {
    (WeatherRecordView {
        temp_min: if source.temp_min is Some {
            source.temp_min
        } else {
            target.temp_min
        },
        temp_max: if source.temp_max is Some {
            source.temp_max
        } else {
            target.temp_max
        },
        temp_avg: if source.temp_avg is Some {
            source.temp_avg
        } else {
            target.temp_avg
        },
        precipitation: if source.precipitation is Some {
            source.precipitation
        } else {
            target.precipitation
        },
        wind_speed: if source.wind_speed is Some {
            source.wind_speed
        } else {
            target.wind_speed
        },
        temp_quality: if source.temp_quality is Some {
            source.temp_quality
        } else {
            target.temp_quality
        },
        precip_quality: if source.precip_quality is Some {
            source.precip_quality
        } else {
            target.precip_quality
        },
        wind_quality: if source.wind_quality is Some {
            source.wind_quality
        } else {
            target.wind_quality
        },
        ..target
    }).validated()
}

/// Sorted records after one more record: it is merged into the record of its
/// station and day, and stands for itself where there was none.
pub open spec fn with_record(rs: Seq<WeatherRecordView>, r: WeatherRecordView) -> Seq<
    WeatherRecordView,
> {
    let p = place_of(rs, r.station_id, r.date);
    if holds_record(rs, r.station_id, r.date) {
        rs.update(p, merged_record(rs[p], r))
    } else {
        rs.insert(p, r)
    }
}

/// Sorted records after the records of a sequence, taken in their order.
pub open spec fn with_records(rs: Seq<WeatherRecordView>, more: Seq<WeatherRecordView>) -> Seq<
    WeatherRecordView,
>
    decreases more.len(),
{
    if more.len() == 0 {
        rs
    } else {
        with_record(with_records(rs, more.drop_last()), more.last())
    }
}

/// What is handed on of sorted records: each record that has a value, with
/// its assessments computed from its values.
pub open spec fn emitted(rs: Seq<WeatherRecordView>) -> Seq<WeatherRecordView>
    decreases rs.len(),
{
    if rs.len() == 0 {
        Seq::empty()
    } else if rs.last().has_any_metric() {
        emitted(rs.drop_last()).push(rs.last().validated())
    } else {
        emitted(rs.drop_last())
    }
}

/// Each record handed on has a value and is one of the records given, with
/// its assessments computed.
pub proof fn lemma_emitted_from(rs: Seq<WeatherRecordView>)
    ensures
        emitted(rs).len() <= rs.len(),
        forall|i: int|
            0 <= i < emitted(rs).len() ==> (#[trigger] emitted(rs)[i]).has_any_metric()
                && exists|j: int| 0 <= j < rs.len() && emitted(rs)[i] == rs[j].validated(),
    decreases rs.len(),
{
    if rs.len() > 0 {
        let rest = rs.drop_last();
        lemma_emitted_from(rest);
        assert forall|i: int| 0 <= i < emitted(rs).len() implies (#[trigger] emitted(
            rs,
        )[i]).has_any_metric() && exists|j: int|
            0 <= j < rs.len() && emitted(rs)[i] == rs[j].validated() by {
            if i < emitted(rest).len() {
                assert(emitted(rs)[i] == emitted(rest)[i]);
                let j = choose|j: int| 0 <= j < rest.len() && emitted(rest)[i] == rest[j].validated();
                assert(rs[j] == rest[j]);
            } else {
                assert(emitted(rs)[i] == rs[rs.len() - 1].validated());
            }
        }
    }
}

/// What is handed on of records in the order of station and day is in that
/// order, so it has no two records for one station and day.
pub proof fn lemma_emitted_sorted(rs: Seq<WeatherRecordView>)
    requires
        sorted_by_station_and_date(rs),
    ensures
        sorted_by_station_and_date(emitted(rs)),
    decreases rs.len(),
{
    if rs.len() > 0 {
        let rest = rs.drop_last();
        assert(sorted_by_station_and_date(rest)) by {
            assert forall|i: int, j: int| 0 <= i < j < rest.len() implies comes_before(
                rest[i],
                rest[j],
            ) by {
                assert(comes_before(rs[i], rs[j]));
            }
        }
        lemma_emitted_sorted(rest);
        lemma_emitted_from(rest);
        let out = emitted(rs);
        assert forall|i: int, j: int| 0 <= i < j < out.len() implies comes_before(
            out[i],
            out[j],
        ) by {
            if j < emitted(rest).len() {
                assert(comes_before(emitted(rest)[i], emitted(rest)[j]));
            } else {
                let k = choose|k: int| 0 <= k < rest.len() && emitted(rest)[i] == rest[k].validated();
                assert(comes_before(rs[k], rs[rs.len() - 1]));
            }
        }
    }
}

impl WeatherRecord {
    /// Takes the values of another record of the same station and day.
    pub fn merge_from(&mut self, source: &WeatherRecord)
        ensures
            final(self)@ == merged_record(old(self)@, source@),
    {
        if source.temp_min.is_some() {
            self.temp_min = source.temp_min;
        }
        if source.temp_max.is_some() {
            self.temp_max = source.temp_max;
        }
        if source.temp_avg.is_some() {
            self.temp_avg = source.temp_avg;
        }
        if source.precipitation.is_some() {
            self.precipitation = source.precipitation;
        }
        if source.wind_speed.is_some() {
            self.wind_speed = source.wind_speed;
        }
        if source.temp_quality.is_some() {
            self.temp_quality = duplicate_text(&source.temp_quality);
        }
        if source.precip_quality.is_some() {
            self.precip_quality = duplicate_text(&source.precip_quality);
        }
        if source.wind_quality.is_some() {
            self.wind_quality = duplicate_text(&source.wind_quality);
        }
        self.perform_physical_validation();
    }
}

/// Files the observations of one data file for a station in the table.
pub fn upsert_observations(
    table: &mut OrderedTable<WeatherRecord>,
    station: &StationMetadata,
    metric: WeatherMetric,
    observations: &Vec<TemperatureRecord>,
)
    requires
        is_record_table(*old(table)),
    ensures
        is_record_table(*final(table)),
        records_of(*final(table)) == with_observations(
            records_of(*old(table)),
            station@,
            metric,
            observations@,
        ),
{
    let mut i: usize = 0;
    assert(observations@.take(0) =~= Seq::<TemperatureRecord>::empty());
    while i < observations.len()
        invariant
            i <= observations.len(),
            is_record_table(*table),
            records_of(*table) == with_observations(
                records_of(*old(table)),
                station@,
                metric,
                observations@.take(i as int),
            ),
        decreases observations.len() - i,
    {
        proof {
            let next = observations@.take(i as int + 1);
            assert(next.drop_last() =~= observations@.take(i as int));
        }
        upsert_observation(table, station, metric, &observations[i]);
        i += 1;
    }
    assert(observations@.take(observations.len() as int) =~= observations@);
}

/// Files one more record in the table, merged into the one of its station
/// and day if there is one.
pub fn upsert_record(table: &mut OrderedTable<WeatherRecord>, record: WeatherRecord)
    requires
        is_record_table(*old(table)),
    ensures
        is_record_table(*final(table)),
        records_of(*final(table)) == with_record(records_of(*old(table)), record@),
{
    let key = record_key_of(record.station_id, record.date);
    let p = table.position(key);
    let ghost before = records_of(*table);
    if table.holds_at(p, key) {
        table.values[p].merge_from(&record);
        proof {
            let after = records_of(*table);
            assert(after =~= before.update(p as int, merged_record(before[p as int], record@)));
            assert(keys_of(after) =~= keys_of(before));
        }
    } else {
        let ghost added = record@;
        table.insert_at(p, key, record);
        proof {
            let after = records_of(*table);
            assert(after =~= before.insert(p as int, added));
            assert(keys_of(after) =~= keys_of(before).insert(p as int, key));
        }
    }
}

/// Hands on the records of a table: each record that has a value, with its
/// assessments computed, in the order of station and day.
pub fn finalize_records(table: &OrderedTable<WeatherRecord>) -> (out: Vec<WeatherRecord>)
    requires
        is_record_table(*table),
    ensures
        out@.map_values(|r: WeatherRecord| r@) == emitted(records_of(*table)),
        sorted_by_station_and_date(out@.map_values(|r: WeatherRecord| r@)),
        forall|i: int| 0 <= i < out@.len() ==> (#[trigger] out@[i])@.has_any_metric(),
{
    let ghost rs = records_of(*table);
    let mut out: Vec<WeatherRecord> = Vec::new();
    let mut i: usize = 0;
    assert(rs.take(0) =~= Seq::<WeatherRecordView>::empty());
    assert(out@.map_values(|r: WeatherRecord| r@) =~= Seq::<WeatherRecordView>::empty());
    while i < table.values.len()
        invariant
            i <= table.values@.len(),
            rs == records_of(*table),
            out@.map_values(|r: WeatherRecord| r@) == emitted(rs.take(i as int)),
        decreases table.values.len() - i,
    {
        proof {
            let next = rs.take(i as int + 1);
            assert(next.drop_last() =~= rs.take(i as int));
            assert(next.last() == table.values@[i as int]@);
        }
        if table.values[i].has_any_metric() {
            let mut record = table.values[i].duplicate();
            record.perform_physical_validation();
            let ghost before = out@.map_values(|r: WeatherRecord| r@);
            let ghost added = record@;
            out.push(record);
            assert(out@.map_values(|r: WeatherRecord| r@) =~= before.push(added));
        }
        i += 1;
    }
    proof {
        assert(rs.take(rs.len() as int) =~= rs);
        lemma_rising_keys_sorted(rs);
        lemma_emitted_sorted(rs);
        lemma_emitted_from(rs);
        let views = out@.map_values(|r: WeatherRecord| r@);
        assert forall|i: int| 0 <= i < out@.len() implies (#[trigger] out@[i])@.has_any_metric() by {
            assert(views[i] == out@[i]@);
            assert(emitted(rs)[i].has_any_metric());
        }
    }
    out
}

} // verus!
