//! The processing of the temperature series of many stations into
//! consolidated records and a report on them.

use vstd::prelude::*;
use vstd::string::*;
use crate::archive::record_table::{record_key, record_key_of};
use crate::error::ProcessingError;
use crate::models::consolidated::{unified_of, ConsolidatedRecord, ConsolidatedView};
use crate::models::station::{StationMetadata, StationView};
use crate::models::temperature::TemperatureRecord;
use crate::models::weather::{WeatherRecord, WeatherRecordView};
use crate::processors::data_merger::{
    all_grouped,
    consolidated_for_all,
    consolidated_for_station,
    consolidated_views,
    DataMerger,
    TemperatureData,
};
use crate::processors::integrity_checker::{
    record_views,
    report_of,
    IntegrityChecker,
    IntegrityReport,
    IntegrityReportView,
    JUMP_THRESHOLD,
};
use crate::readers::concurrent_reader::StationTemperatureData;
use crate::utils::table::{has_key, lemma_rank_bounds, rank_of, OrderedTable, TableView};
use crate::writers::parquet_writer::batches_of;

verus! {

/// How many records go into a batch unless the caller says otherwise.
pub const DEFAULT_CHUNK_SIZE: usize = 1000;

/// How the temperature series of stations are processed.
pub struct ParallelProcessor {
    max_workers: usize,
    chunk_size: usize,
    allow_incomplete: bool,
    strict_validation: bool,
}

/// The settings of a processor.
pub struct ProcessorSettings {
    pub max_workers: usize,
    pub chunk_size: usize,
    pub allow_incomplete: bool,
    pub strict_validation: bool,
}

/// A station with its temperature rows.
pub struct StationSeries {
    pub station: StationMetadata,
    pub data: StationTemperatureData,
}

/// The report on consolidated records: that on their unified records.
pub open spec fn report_on(rs: Seq<ConsolidatedView>) -> IntegrityReportView {
    report_of(rs.map_values(|r: ConsolidatedView| unified_of(r)), JUMP_THRESHOLD)
}

/// The consolidated records of one station's series.
pub open spec fn station_records(
    station: StationView,
    min: Seq<TemperatureRecord>,
    max: Seq<TemperatureRecord>,
    avg: Seq<TemperatureRecord>,
    allow_incomplete: bool,
) -> Seq<ConsolidatedView> {
    let groups = all_grouped(Some(station.staid), min, max, avg);
    consolidated_for_station(station, groups.values, allow_incomplete, groups.values.len() as int)
}

/// A station's series as plain values: the station, the station number that
/// the rows were read under, and the rows.
pub struct SeriesView {
    pub station: StationView,
    pub station_id: u32,
    pub min: Seq<TemperatureRecord>,
    pub max: Seq<TemperatureRecord>,
    pub avg: Seq<TemperatureRecord>,
}

impl View for StationSeries {
    type V = SeriesView;

    open spec fn view(&self) -> SeriesView {
        SeriesView {
            station: self.station@,
            station_id: self.data.station_id,
            min: self.data.min_temperatures@,
            max: self.data.max_temperatures@,
            avg: self.data.avg_temperatures@,
        }
    }
}

/// The consolidated records of the first `count` stations, station after
/// station.
pub open spec fn records_of_stations(stations: Seq<SeriesView>, allow_incomplete: bool, count: int)
    -> Seq<ConsolidatedView>
    decreases count,
{
    if count <= 0 {
        Seq::empty()
    } else {
        records_of_stations(stations, allow_incomplete, count - 1) + station_records(
            stations[count - 1].station,
            stations[count - 1].min,
            stations[count - 1].max,
            stations[count - 1].avg,
            allow_incomplete,
        )
    }
}

/// The first `count` records filed by station and day: under each key the
/// records of that station and day, in the order in which they came.
pub open spec fn filed(rs: Seq<ConsolidatedView>, count: int) -> TableView<Seq<ConsolidatedView>>
    decreases count,
{
    if count <= 0 {
        TableView::empty()
    } else {
        let before = filed(rs, count - 1);
        let r = rs[count - 1];
        let key = record_key(r.station_id, r.date);
        let so_far = match before.get(key) {
            Some(b) => b,
            None => Seq::empty(),
        };
        before.put(key, so_far.push(r))
    }
}

/// The records of the first `count` files, one file after the other.
pub open spec fn joined(files: Seq<Seq<ConsolidatedView>>, count: int) -> Seq<ConsolidatedView>
    decreases count,
{
    if count <= 0 {
        Seq::empty()
    } else {
        joined(files, count - 1) + files[count - 1]
    }
}

/// The records in the order of station and day; records of one station and
/// day stay in the order in which they came.
pub open spec fn in_order(rs: Seq<ConsolidatedView>) -> Seq<ConsolidatedView> {
    let files = filed(rs, rs.len() as int).values;
    joined(files, files.len() as int)
}

pub open spec fn file_views(files: Seq<Vec<ConsolidatedRecord>>) -> Seq<Seq<ConsolidatedView>> {
    files.map_values(|f: Vec<ConsolidatedRecord>| consolidated_views(f@))
}

fn append_records(all: &mut Vec<ConsolidatedRecord>, more: &Vec<ConsolidatedRecord>)
    ensures
        consolidated_views(final(all)@) == consolidated_views(old(all)@) + consolidated_views(
            more@,
        ),
{
    let ghost start = consolidated_views(all@);
    let ghost add = consolidated_views(more@);
    let mut i: usize = 0;
    assert(start + add.take(0) =~= start);
    while i < more.len()
        invariant
            i <= more.len(),
            add == consolidated_views(more@),
            consolidated_views(all@) == start + add.take(i as int),
        decreases more.len() - i,
    {
        let ghost before = consolidated_views(all@);
        all.push(more[i].duplicate());
        assert(consolidated_views(all@) =~= before.push(more@[i as int]@));
        assert(add.take(i as int + 1) =~= add.take(i as int).push(add[i as int]));
        assert(consolidated_views(all@) =~= start + add.take(i as int + 1));
        i += 1;
    }
    assert(add.take(more.len() as int) =~= add);
}

/// Puts records in the order of station and day.
pub fn order_records(records: &Vec<ConsolidatedRecord>) -> (r: Vec<ConsolidatedRecord>)
    ensures
        consolidated_views(r@) == in_order(consolidated_views(records@)),
{
    let ghost rs = consolidated_views(records@);
    let mut table: OrderedTable<Vec<ConsolidatedRecord>> = OrderedTable::new();
    let mut i: usize = 0;
    assert(file_views(table.values@) =~= Seq::<Seq<ConsolidatedView>>::empty());
    while i < records.len()
        invariant
            i <= records.len(),
            rs == consolidated_views(records@),
            table.wf(),
            table.keys@ == filed(rs, i as int).keys,
            file_views(table.values@) == filed(rs, i as int).values,
        decreases records.len() - i,
    {
        let record = records[i].duplicate();
        assert(rs[i as int] == record@);
        let key = record_key_of(record.station_id, record.date);
        let p = table.position(key);
        let ghost before = file_views(table.values@);
        proof {
            lemma_rank_bounds(table.keys@, key);
        }
        if table.holds_at(p, key) {
            let ghost bucket = before[p as int];
            let ghost old_values = table.values@;
            assert(bucket == consolidated_views(old_values[p as int]@));
            table.values[p].push(record);
            proof {
                let now = table.values@;
                assert(now.len() == old_values.len());
                assert(now[p as int]@ == old_values[p as int]@.push(record));
                assert(consolidated_views(now[p as int]@) =~= bucket.push(rs[i as int]));
                assert forall|j: int| 0 <= j < now.len() && j != p implies now[j] == old_values[j] by {}
                assert(file_views(now) =~= before.update(p as int, bucket.push(rs[i as int])));
            }
        } else {
            let mut bucket: Vec<ConsolidatedRecord> = Vec::new();
            bucket.push(record);
            assert(consolidated_views(bucket@) =~= Seq::<ConsolidatedView>::empty().push(
                rs[i as int],
            ));
            table.insert_at(p, key, bucket);
            assert(file_views(table.values@) =~= before.insert(
                p as int,
                Seq::<ConsolidatedView>::empty().push(rs[i as int]),
            ));
        }
        i += 1;
    }
    let ghost files = file_views(table.values@);
    let mut out: Vec<ConsolidatedRecord> = Vec::new();
    let mut k: usize = 0;
    assert(consolidated_views(out@) =~= Seq::<ConsolidatedView>::empty());
    while k < table.values.len()
        invariant
            k <= table.values@.len(),
            files == file_views(table.values@),
            consolidated_views(out@) == joined(files, k as int),
        decreases table.values.len() - k,
    {
        assert(files[k as int] == consolidated_views(table.values@[k as int]@));
        append_records(&mut out, &table.values[k]);
        k += 1;
    }
    out
}

/// The unified records of consolidated records.
pub fn unified_records(records: &Vec<ConsolidatedRecord>) -> (r: Vec<WeatherRecord>)
    ensures
        record_views(r@) == consolidated_views(records@).map_values(
            |c: ConsolidatedView| unified_of(c),
        ),
{
    let mut r: Vec<WeatherRecord> = Vec::new();
    let mut i: usize = 0;
    while i < records.len()
        invariant
            i <= records.len(),
            r@.len() == i,
            forall|k: int| 0 <= k < i ==> (#[trigger] r@[k])@ == unified_of(records@[k]@),
        decreases records.len() - i,
    {
        r.push(records[i].as_weather_record());
        i += 1;
    }
    assert(record_views(r@) =~= consolidated_views(records@).map_values(
        |c: ConsolidatedView| unified_of(c),
    ));
    r
}

impl ParallelProcessor {
    pub closed spec fn settings(&self) -> ProcessorSettings {
        ProcessorSettings {
            max_workers: self.max_workers,
            chunk_size: self.chunk_size,
            allow_incomplete: self.allow_incomplete,
            strict_validation: self.strict_validation,
        }
    }

    /// A processor with batches of 1000 records that leaves out incomplete
    /// days.
    pub fn new(max_workers: usize) -> (p: ParallelProcessor)
        ensures
            p.settings() == (ProcessorSettings {
                max_workers,
                chunk_size: DEFAULT_CHUNK_SIZE,
                allow_incomplete: false,
                strict_validation: false,
            }),
    {
        ParallelProcessor {
            max_workers,
            chunk_size: DEFAULT_CHUNK_SIZE,
            allow_incomplete: false,
            strict_validation: false,
        }
    }

    pub fn with_chunk_size(self, chunk_size: usize) -> (p: ParallelProcessor)
        ensures
            p.settings() == (ProcessorSettings { chunk_size, ..self.settings() }),
    {
        ParallelProcessor {
            max_workers: self.max_workers,
            chunk_size,
            allow_incomplete: self.allow_incomplete,
            strict_validation: self.strict_validation,
        }
    }

    pub fn with_allow_incomplete(self, allow_incomplete: bool) -> (p: ParallelProcessor)
        ensures
            p.settings() == (ProcessorSettings { allow_incomplete, ..self.settings() }),
    {
        ParallelProcessor {
            max_workers: self.max_workers,
            chunk_size: self.chunk_size,
            allow_incomplete,
            strict_validation: self.strict_validation,
        }
    }

    pub fn with_strict_validation(self, strict_validation: bool) -> (p: ParallelProcessor)
        ensures
            p.settings() == (ProcessorSettings { strict_validation, ..self.settings() }),
    {
        ParallelProcessor {
            max_workers: self.max_workers,
            chunk_size: self.chunk_size,
            allow_incomplete: self.allow_incomplete,
            strict_validation,
        }
    }

    /// How many workers may process stations at a time.
    pub fn max_workers(&self) -> (n: usize)
        ensures
            n == self.settings().max_workers,
    {
        self.max_workers
    }

    /// How many records go into a batch.
    pub fn chunk_size(&self) -> (n: usize)
        ensures
            n == self.settings().chunk_size,
    {
        self.chunk_size
    }

    /// The report on consolidated records.
    pub fn check(&self, records: &Vec<ConsolidatedRecord>) -> (report: IntegrityReport)
        ensures
            report@ == report_on(consolidated_views(records@)),
            report.station_statistics.wf(),
    {
        let unified = unified_records(records);
        let checker = IntegrityChecker::with_strict_mode(self.strict_validation);
        match checker.check_integrity(&unified) {
            Ok(report) => report,
            Err(_) => crate::archive::ArchiveProcessor::calculate_integrity_report(&unified),
        }
    }

    /// The consolidated records of all stations of the data, in the order of
    /// station and day, and the report on them.
    pub fn process_all_data(&self, temperature_data: &TemperatureData) -> (r: Result<
        (Vec<ConsolidatedRecord>, IntegrityReport),
        ProcessingError,
    >)
        ensures
            r matches Ok((records, report)) && ({
                let groups = all_grouped(
                    None,
                    temperature_data.min_temperatures@,
                    temperature_data.max_temperatures@,
                    temperature_data.avg_temperatures@,
                );
                &&& consolidated_views(records@) == consolidated_for_all(
                    temperature_data.stations@,
                    groups.values,
                    self.settings().allow_incomplete,
                    groups.values.len() as int,
                )
                &&& report@ == report_on(consolidated_views(records@))
            }),
    {
        let merger = DataMerger::with_allow_incomplete(self.allow_incomplete);
        let records = match merger.merge_temperature_data(temperature_data) {
            Ok(records) => records,
            Err(e) => {
                return Err(e);
            },
        };
        let report = self.check(&records);
        Ok((records, report))
    }

    /// The consolidated records of one station.
    pub fn process_single_station(&self, series: &StationSeries) -> (r: Result<
        Vec<ConsolidatedRecord>,
        ProcessingError,
    >)
        ensures
            r matches Ok(records) && consolidated_views(records@) == station_records(
                series@.station,
                series@.min,
                series@.max,
                series@.avg,
                self.settings().allow_incomplete,
            ),
    {
        let merger = DataMerger::with_allow_incomplete(self.allow_incomplete);
        merger.merge_station_data(
            &series.station,
            duplicate_rows(&series.data.min_temperatures),
            duplicate_rows(&series.data.max_temperatures),
            duplicate_rows(&series.data.avg_temperatures),
        )
    }

    /// The consolidated records of the stations, in the order of station and
    /// day, and the report on them.
    pub fn process_by_stations(&self, stations: &Vec<StationSeries>) -> (r: Result<
        (Vec<ConsolidatedRecord>, IntegrityReport),
        ProcessingError,
    >)
        ensures
            r matches Ok((records, report)) && {
                &&& consolidated_views(records@) == in_order(
                    records_of_stations(
                        stations@.map_values(|s: StationSeries| s@),
                        self.settings().allow_incomplete,
                        stations@.len() as int,
                    ),
                )
                &&& report@ == report_on(consolidated_views(records@))
            },
    {
        let ghost views = stations@.map_values(|s: StationSeries| s@);
        let mut all: Vec<ConsolidatedRecord> = Vec::new();
        let mut i: usize = 0;
        assert(consolidated_views(all@) =~= Seq::<ConsolidatedView>::empty());
        while i < stations.len()
            invariant
                i <= stations.len(),
                views == stations@.map_values(|s: StationSeries| s@),
                consolidated_views(all@) == records_of_stations(
                    views,
                    self.settings().allow_incomplete,
                    i as int,
                ),
            decreases stations.len() - i,
        {
            assert(views[i as int] == stations@[i as int]@);
            let records = match self.process_single_station(&stations[i]) {
                Ok(records) => records,
                Err(e) => {
                    return Err(e);
                },
            };
            append_records(&mut all, &records);
            i += 1;
        }
        let records = order_records(&all);
        let report = self.check(&records);
        Ok((records, report))
    }

    /// The batches in which `len` records are processed.
    pub fn process_in_batches(&self, len: usize) -> (r: Vec<(usize, usize)>)
        requires
            self.settings().chunk_size > 0,
        ensures
            r@ == batches_of(len as nat, self.settings().chunk_size as nat),
    {
        crate::writers::parquet_writer::ParquetWriter::new().batches(len, self.chunk_size)
    }
}

fn duplicate_rows(rows: &Vec<TemperatureRecord>) -> (r: Vec<TemperatureRecord>)
    ensures
        r@ == rows@,
{
    let mut r: Vec<TemperatureRecord> = Vec::new();
    let mut i: usize = 0;
    while i < rows.len()
        invariant
            i <= rows.len(),
            r@ == rows@.take(i as int),
        decreases rows.len() - i,
    {
        r.push(rows[i]);
        i += 1;
    }
    assert(rows@.take(rows.len() as int) =~= rows@);
    r
}

} // verus!
