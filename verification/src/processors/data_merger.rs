//! The merge of the three temperature series of stations into consolidated
//! records.

use vstd::prelude::*;
use vstd::string::*;
use std::collections::HashMap;
use crate::archive::record_table::{record_key, record_key_of};
use crate::error::ProcessingError;
use crate::models::consolidated::{ConsolidatedRecord, ConsolidatedView, MISSING_TEMPERATURE};
use crate::models::date::Date;
use crate::models::station::{StationMetadata, StationView};
use crate::models::temperature::{TemperatureRecord, TemperatureSet};
use crate::utils::table::{OrderedTable, TableView};
use crate::utils::text::{append_decimal, decimal_repr};

verus! {

/// Which of the three temperatures a series holds.
#[derive(Debug, Clone, Copy, PartialEq, Eq, Structural)]
pub enum SeriesKind {
    Minimum,
    Maximum,
    Average,
}

/// The temperatures of one station and day.
#[derive(Debug, Clone, Copy, PartialEq, Eq, Structural)]
pub struct DatedSet {
    pub station_id: u32,
    pub date: Date,
    pub set: TemperatureSet,
}

/// All temperature rows of a set of stations.
pub struct TemperatureData {
    pub stations: HashMap<u32, StationMetadata>,
    pub min_temperatures: Vec<TemperatureRecord>,
    pub max_temperatures: Vec<TemperatureRecord>,
    pub avg_temperatures: Vec<TemperatureRecord>,
}

/// A set of temperatures with one of the three replaced.
pub open spec fn set_with(set: TemperatureSet, kind: SeriesKind, r: TemperatureRecord)
    -> TemperatureSet {
    match kind {
        SeriesKind::Minimum => TemperatureSet { min: Some(r), ..set },
        SeriesKind::Maximum => TemperatureSet { max: Some(r), ..set },
        SeriesKind::Average => TemperatureSet { avg: Some(r), ..set },
    }
}

pub open spec fn no_temperatures() -> TemperatureSet {
    TemperatureSet { min: None, max: None, avg: None }
}

/// The station under which a row is grouped: the one given, or the row's own.
pub open spec fn group_station(fixed: Option<u32>, r: TemperatureRecord) -> u32 {
    match fixed {
        Some(id) => id,
        None => r.staid,
    }
}

/// The groups of station and day after one more row of a series.
pub open spec fn grouped_with(
    t: TableView<DatedSet>,
    kind: SeriesKind,
    fixed: Option<u32>,
    r: TemperatureRecord,
) -> TableView<DatedSet> {
    let station_id = group_station(fixed, r);
    let key = record_key(station_id, r.date);
    let so_far = match t.get(key) {
        Some(d) => d.set,
        None => no_temperatures(),
    };
    t.put(key, DatedSet { station_id, date: r.date, set: set_with(so_far, kind, r) })
}

/// The groups of station and day after the rows of a series, in their order.
pub open spec fn grouped(
    t: TableView<DatedSet>,
    kind: SeriesKind,
    fixed: Option<u32>,
    rows: Seq<TemperatureRecord>,
) -> TableView<DatedSet>
    decreases rows.len(),
{
    if rows.len() == 0 {
        t
    } else {
        grouped_with(grouped(t, kind, fixed, rows.drop_last()), kind, fixed, rows.last())
    }
}

/// The groups of the three series, the minimum rows first, then the maximum
/// rows, then the average rows.
pub open spec fn all_grouped(
    fixed: Option<u32>,
    min: Seq<TemperatureRecord>,
    max: Seq<TemperatureRecord>,
    avg: Seq<TemperatureRecord>,
) -> TableView<DatedSet> {
    grouped(
        grouped(
            grouped(TableView::empty(), SeriesKind::Minimum, fixed, min),
            SeriesKind::Maximum,
            fixed,
            max,
        ),
        SeriesKind::Average,
        fixed,
        avg,
    )
}

pub open spec fn slot_temperature(slot: Option<TemperatureRecord>) -> i32 {
    match slot {
        Some(r) => r.temperature,
        None => MISSING_TEMPERATURE,
    }
}

pub open spec fn slot_flag(slot: Option<TemperatureRecord>) -> u8 {
    match slot {
        Some(r) => r.quality_flag,
        None => 9,
    }
}

/// The consolidated record of a station, a day and its temperatures: none
/// where a temperature is not there and incomplete records are not allowed,
/// and none where all three are the sentinel; otherwise the three values,
/// with the sentinel and the flag 9 for one that is not there.
pub open spec fn consolidated_of(
    station: StationView,
    date: Date,
    set: TemperatureSet,
    allow_incomplete: bool,
) -> Option<ConsolidatedView> {
    if !allow_incomplete && (set.min is None || set.max is None || set.avg is None) {
        None
    } else if slot_temperature(set.min) == MISSING_TEMPERATURE && slot_temperature(set.max)
        == MISSING_TEMPERATURE && slot_temperature(set.avg) == MISSING_TEMPERATURE {
        None
    } else {
        Some(
            ConsolidatedView {
                station_id: station.staid,
                station_name: station.name,
                date,
                latitude: station.latitude,
                longitude: station.longitude,
                min_temp: slot_temperature(set.min),
                max_temp: slot_temperature(set.max),
                avg_temp: slot_temperature(set.avg),
                quality_flags: decimal_repr(slot_flag(set.min) as nat) + decimal_repr(
                    slot_flag(set.avg) as nat,
                ) + decimal_repr(slot_flag(set.max) as nat),
            },
        )
    }
}

/// The consolidated records of the first `count` groups for one station.
pub open spec fn consolidated_for_station(
    station: StationView,
    groups: Seq<DatedSet>,
    allow_incomplete: bool,
    count: int,
) -> Seq<ConsolidatedView>
    decreases count,
{
    if count <= 0 {
        Seq::empty()
    } else {
        let before = consolidated_for_station(station, groups, allow_incomplete, count - 1);
        match consolidated_of(station, groups[count - 1].date, groups[count - 1].set, allow_incomplete) {
            Some(r) => before.push(r),
            None => before,
        }
    }
}

/// The consolidated records of the first `count` groups, each for its
/// station if the stations given know it.
pub open spec fn consolidated_for_all(
    stations: Map<u32, StationMetadata>,
    groups: Seq<DatedSet>,
    allow_incomplete: bool,
    count: int,
) -> Seq<ConsolidatedView>
    decreases count,
{
    if count <= 0 {
        Seq::empty()
    } else {
        let before = consolidated_for_all(stations, groups, allow_incomplete, count - 1);
        let g = groups[count - 1];
        if stations.contains_key(g.station_id) {
            match consolidated_of(stations[g.station_id]@, g.date, g.set, allow_incomplete) {
                Some(r) => before.push(r),
                None => before,
            }
        } else {
            before
        }
    }
}

pub open spec fn consolidated_views(rs: Seq<ConsolidatedRecord>) -> Seq<ConsolidatedView> {
    rs.map_values(|r: ConsolidatedRecord| r@)
}

fn group_rows(
    table: &mut OrderedTable<DatedSet>,
    kind: SeriesKind,
    fixed: Option<u32>,
    rows: &Vec<TemperatureRecord>,
)
    requires
        old(table).wf(),
    ensures
        final(table).wf(),
        final(table)@ == grouped(old(table)@, kind, fixed, rows@),
{
    let mut i: usize = 0;
    assert(rows@.take(0) =~= Seq::<TemperatureRecord>::empty());
    while i < rows.len()
        invariant
            i <= rows.len(),
            table.wf(),
            table@ == grouped(old(table)@, kind, fixed, rows@.take(i as int)),
        decreases rows.len() - i,
    {
        proof {
            let next = rows@.take(i as int + 1);
            assert(next.drop_last() =~= rows@.take(i as int));
        }
        let r = rows[i];
        let station_id = match fixed {
            Some(id) => id,
            None => r.staid,
        };
        let key = record_key_of(station_id, r.date);
        let so_far = match table.find(key) {
            Some(p) => table.values[p].set,
            None => TemperatureSet { min: None, max: None, avg: None },
        };
        let set = match kind {
            SeriesKind::Minimum => TemperatureSet { min: Some(r), max: so_far.max, avg: so_far.avg },
            SeriesKind::Maximum => TemperatureSet { min: so_far.min, max: Some(r), avg: so_far.avg },
            SeriesKind::Average => TemperatureSet { min: so_far.min, max: so_far.max, avg: Some(r) },
        };
        table.put(key, DatedSet { station_id, date: r.date, set });
        i += 1;
    }
    assert(rows@.take(rows.len() as int) =~= rows@);
}

/// Merges temperature series into consolidated records.
pub struct DataMerger {
    allow_incomplete: bool,
}

impl DataMerger {
    /// Whether a record is made of a day that lacks one of the temperatures.
    pub closed spec fn allows_incomplete(&self) -> bool {
        self.allow_incomplete
    }

    pub fn new() -> (m: DataMerger)
        ensures
            !m.allows_incomplete(),
    {
        DataMerger { allow_incomplete: false }
    }

    pub fn with_allow_incomplete(allow_incomplete: bool) -> (m: DataMerger)
        ensures
            m.allows_incomplete() == allow_incomplete,
    {
        DataMerger { allow_incomplete }
    }

    /// The consolidated record of a station, a day and its temperatures.
    pub fn create_consolidated_record(
        &self,
        station: &StationMetadata,
        date: Date,
        temp_set: TemperatureSet,
    ) -> (r: Result<Option<ConsolidatedRecord>, ProcessingError>)
        ensures
            r matches Ok(made) && (match made {
                Some(rec) => consolidated_of(station@, date, temp_set, self.allows_incomplete())
                    == Some(rec@),
                None => consolidated_of(station@, date, temp_set, self.allows_incomplete())
                    is None,
            }),
    {
        if !self.allow_incomplete && (temp_set.min.is_none() || temp_set.max.is_none()
            || temp_set.avg.is_none()) {
            return Ok(None);
        }
        let (min_temp, min_quality) = match temp_set.min {
            Some(r) => (r.temperature, r.quality_flag),
            None => (MISSING_TEMPERATURE, 9u8),
        };
        let (max_temp, max_quality) = match temp_set.max {
            Some(r) => (r.temperature, r.quality_flag),
            None => (MISSING_TEMPERATURE, 9u8),
        };
        let (avg_temp, avg_quality) = match temp_set.avg {
            Some(r) => (r.temperature, r.quality_flag),
            None => (MISSING_TEMPERATURE, 9u8),
        };
        if min_temp == MISSING_TEMPERATURE && max_temp == MISSING_TEMPERATURE && avg_temp
            == MISSING_TEMPERATURE {
            return Ok(None);
        }
        let mut quality_flags = String::new();
        append_decimal(&mut quality_flags, min_quality as u64);
        append_decimal(&mut quality_flags, avg_quality as u64);
        append_decimal(&mut quality_flags, max_quality as u64);
        assert(quality_flags@ =~= decimal_repr(min_quality as nat) + decimal_repr(
            avg_quality as nat,
        ) + decimal_repr(max_quality as nat));
        Ok(
            Some(
                ConsolidatedRecord::new(
                    station.staid,
                    station.name.clone(),
                    date,
                    station.latitude,
                    station.longitude,
                    min_temp,
                    max_temp,
                    avg_temp,
                    quality_flags,
                ),
            ),
        )
    }

    /// The consolidated records of one station, in the order of the days: the
    /// rows of the three series are grouped by day, of several rows of one
    /// series for a day the last counts.
    pub fn merge_station_data(
        &self,
        station: &StationMetadata,
        min_temps: Vec<TemperatureRecord>,
        max_temps: Vec<TemperatureRecord>,
        avg_temps: Vec<TemperatureRecord>,
    ) -> (r: Result<Vec<ConsolidatedRecord>, ProcessingError>)
        ensures
            r matches Ok(records) && ({
                let groups = all_grouped(Some(station.staid), min_temps@, max_temps@, avg_temps@);
                consolidated_views(records@) == consolidated_for_station(
                    station@,
                    groups.values,
                    self.allows_incomplete(),
                    groups.values.len() as int,
                )
            }),
    {
        let mut table: OrderedTable<DatedSet> = OrderedTable::new();
        group_rows(&mut table, SeriesKind::Minimum, Some(station.staid), &min_temps);
        group_rows(&mut table, SeriesKind::Maximum, Some(station.staid), &max_temps);
        group_rows(&mut table, SeriesKind::Average, Some(station.staid), &avg_temps);
        let mut records: Vec<ConsolidatedRecord> = Vec::new();
        let mut i: usize = 0;
        assert(consolidated_views(records@) =~= Seq::<ConsolidatedView>::empty());
        while i < table.values.len()
            invariant
                i <= table.values@.len(),
                consolidated_views(records@) == consolidated_for_station(
                    station@,
                    table.values@,
                    self.allows_incomplete(),
                    i as int,
                ),
            decreases table.values.len() - i,
        {
            let group = table.values[i];
            match self.create_consolidated_record(station, group.date, group.set) {
                Ok(Some(record)) => {
                    let ghost before = consolidated_views(records@);
                    let ghost added = record@;
                    records.push(record);
                    assert(consolidated_views(records@) =~= before.push(added));
                },
                _ => {},
            }
            i += 1;
        }
        Ok(records)
    }

    /// The consolidated records of all stations, in the order of station and
    /// day. Rows of a station that the data do not know give no record.
    pub fn merge_temperature_data(&self, temperature_data: &TemperatureData) -> (r: Result<
        Vec<ConsolidatedRecord>,
        ProcessingError,
    >)
        ensures
            r matches Ok(records) && ({
                let groups = all_grouped(
                    None,
                    temperature_data.min_temperatures@,
                    temperature_data.max_temperatures@,
                    temperature_data.avg_temperatures@,
                );
                consolidated_views(records@) == consolidated_for_all(
                    temperature_data.stations@,
                    groups.values,
                    self.allows_incomplete(),
                    groups.values.len() as int,
                )
            }),
    {
        let mut table: OrderedTable<DatedSet> = OrderedTable::new();
        group_rows(&mut table, SeriesKind::Minimum, None, &temperature_data.min_temperatures);
        group_rows(&mut table, SeriesKind::Maximum, None, &temperature_data.max_temperatures);
        group_rows(&mut table, SeriesKind::Average, None, &temperature_data.avg_temperatures);
        let mut records: Vec<ConsolidatedRecord> = Vec::new();
        let mut i: usize = 0;
        assert(consolidated_views(records@) =~= Seq::<ConsolidatedView>::empty());
        while i < table.values.len()
            invariant
                i <= table.values@.len(),
                consolidated_views(records@) == consolidated_for_all(
                    temperature_data.stations@,
                    table.values@,
                    self.allows_incomplete(),
                    i as int,
                ),
            decreases table.values.len() - i,
        {
            let group = table.values[i];
            match temperature_data.stations.get(&group.station_id) {
                Some(station) => {
                    match self.create_consolidated_record(station, group.date, group.set) {
                        Ok(Some(record)) => {
                            let ghost before = consolidated_views(records@);
                            let ghost added = record@;
                            records.push(record);
                            assert(consolidated_views(records@) =~= before.push(added));
                        },
                        _ => {},
                    }
                },
                None => {},
            }
            i += 1;
        }
        Ok(records)
    }
}

} // verus!
