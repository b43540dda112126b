//! The processing of one archive: its data files are read metric by metric
//! into the records of station and day, which are then validated and checked.

use vstd::prelude::*;
use vstd::string::*;
use std::collections::HashMap;
use crate::archive::inspector::{
    content_of,
    entry_views,
    find_entry,
    metadata_of,
    station_of_file_name,
    station_of_name,
    ArchiveInspector,
    ArchiveMetadata,
    ArchiveMetadataView,
    EntryView,
};
use crate::archive::record_table::{
    emitted,
    finalize_records,
    is_record_table,
    records_of,
    sorted_by_station_and_date,
    upsert_observations,
    with_observations,
};
use crate::archive::{ArchiveEntry, WeatherMetric};
use crate::error::ProcessingError;
use crate::models::station::{StationMetadata, StationView};
use crate::models::weather::{WeatherRecord, WeatherRecordView};
use crate::processors::integrity_checker::{
    record_views,
    report_of,
    IntegrityChecker,
    IntegrityReport,
    JUMP_THRESHOLD,
};
use crate::readers::station_reader::{
    is_lookup_of,
    station_with_id,
    stations_of_text,
    StationReader,
};
use crate::readers::temperature_reader::{
    file_name,
    file_name_of,
    observations_of,
    observations_of_text,
};
use crate::utils::table::OrderedTable;
use crate::utils::text::{chars_of, contains_spec, find};

verus! {

/// What the name of a data file of the metric holds.
pub open spec fn data_pattern(metric: WeatherMetric) -> Seq<char> {
    metric.prefix() + "_STAID"@
}

/// Sorted records after one file of an archive, for a metric: a file whose
/// name holds the metric's pattern and gives a station of the catalog adds
/// its observations; any other file adds nothing.
pub open spec fn after_entry(
    rs: Seq<WeatherRecordView>,
    entry: EntryView,
    metric: WeatherMetric,
    stations: Seq<StationView>,
) -> Seq<WeatherRecordView> {
    if contains_spec(entry.name, data_pattern(metric)) {
        match station_of_file_name(file_name_of(entry.name)) {
            Some(id) => match station_with_id(stations, id) {
                Some(station) => with_observations(
                    rs,
                    station,
                    metric,
                    observations_of_text(entry.content, station.staid, true),
                ),
                None => rs,
            },
            None => rs,
        }
    } else {
        rs
    }
}

/// Sorted records after the first `count` files of an archive, for a metric.
pub open spec fn after_entries(
    rs: Seq<WeatherRecordView>,
    entries: Seq<EntryView>,
    metric: WeatherMetric,
    stations: Seq<StationView>,
    count: int,
) -> Seq<WeatherRecordView>
    decreases count,
{
    if count <= 0 {
        rs
    } else {
        after_entry(
            after_entries(rs, entries, metric, stations, count - 1),
            entries[count - 1],
            metric,
            stations,
        )
    }
}

/// Sorted records after the files of an archive for the first `count` metrics.
pub open spec fn after_metrics(
    entries: Seq<EntryView>,
    metrics: Seq<WeatherMetric>,
    stations: Seq<StationView>,
    count: int,
) -> Seq<WeatherRecordView>
    decreases count,
{
    if count <= 0 {
        Seq::empty()
    } else {
        after_entries(
            after_metrics(entries, metrics, stations, count - 1),
            entries,
            metrics[count - 1],
            stations,
            entries.len() as int,
        )
    }
}

/// The records of an archive for the given metrics; nothing without a
/// station catalog.
pub open spec fn archive_records(entries: Seq<EntryView>, metrics: Seq<WeatherMetric>) -> Option<
    Seq<WeatherRecordView>,
> {
    match content_of(entries, "stations.txt"@) {
        Some(catalog) => Some(
            emitted(
                after_metrics(
                    entries,
                    metrics,
                    stations_of_text(catalog, true),
                    metrics.len() as int,
                ),
            ),
        ),
        None => None,
    }
}

/// The station number of a data file's name.
pub fn extract_station_id_from_filename(file_name: &str) -> (r: Option<u32>)
    ensures
        r == station_of_file_name(file_name@),
{
    let name = chars_of(file_name);
    station_of_name(&name)
}

/// Processes the files of one archive.
pub struct ArchiveProcessor {
    archive_metadata: ArchiveMetadata,
}

impl ArchiveProcessor {
    /// What the inspection of the archive gave.
    pub closed spec fn metadata_view(&self) -> ArchiveMetadataView {
        self.archive_metadata@
    }

    /// A processor for an archive, given as the list of its files.
    pub fn from_zip(entries: &Vec<ArchiveEntry>) -> (r: Result<ArchiveProcessor, ProcessingError>)
        ensures
            match r {
                Ok(p) => metadata_of(entry_views(entries@)) == Some(p.metadata_view()),
                Err(e) => metadata_of(entry_views(entries@)).is_none() && e is InvalidFormat,
            },
    {
        match ArchiveInspector::inspect_zip(entries) {
            Ok(archive_metadata) => Ok(ArchiveProcessor { archive_metadata }),
            Err(e) => Err(e),
        }
    }

    pub fn metadata(&self) -> (m: &ArchiveMetadata)
        ensures
            m@ == self.metadata_view(),
    {
        &self.archive_metadata
    }

    /// The records of the archive, in the order of station and day, and the
    /// report on them. Without a station catalog there is nothing to process.
    pub fn process_data(self, entries: &Vec<ArchiveEntry>) -> (r: Result<
        (Vec<WeatherRecord>, IntegrityReport),
        ProcessingError,
    >)
        ensures
            match r {
                Ok((records, report)) => {
                    &&& archive_records(entry_views(entries@), self.metadata_view().metrics)
                        == Some(record_views(records@))
                    &&& sorted_by_station_and_date(record_views(records@))
                    &&& forall|i: int|
                        0 <= i < records@.len() ==> (#[trigger] records@[i])@.has_any_metric()
                    &&& report@ == report_of(record_views(records@), JUMP_THRESHOLD)
                    &&& report.station_statistics.wf()
                },
                Err(e) => archive_records(entry_views(entries@), self.metadata_view().metrics)
                    is None && e is InvalidFormat,
            },
    {
        let ghost views = entry_views(entries@);
        let station_map = match find_entry(entries, "stations.txt") {
            Some(i) => StationReader::new().read_stations_map(entries[i].content.as_str()),
            None => {
                return Err(
                    ProcessingError::InvalidFormat(
                        String::from_str("stations.txt not found in archive"),
                    ),
                );
            },
        };
        let ghost stations = stations_of_text(content_of(views, "stations.txt"@)->0, true);
        let mut table: OrderedTable<WeatherRecord> = OrderedTable::new();
        assert(records_of(table) =~= Seq::<WeatherRecordView>::empty());
        assert(crate::archive::record_table::keys_of(records_of(table)) =~= table.keys@);
        let mut m: usize = 0;
        while m < self.archive_metadata.metrics.len()
            invariant
                m <= self.archive_metadata.metrics@.len(),
                views == entry_views(entries@),
                is_lookup_of(station_map@, stations),
                is_record_table(table),
                records_of(table) == after_metrics(
                    views,
                    self.archive_metadata.metrics@,
                    stations,
                    m as int,
                ),
            decreases self.archive_metadata.metrics.len() - m,
        {
            Self::process_metric_files(
                entries,
                self.archive_metadata.metrics[m],
                &station_map,
                Ghost(stations),
                &mut table,
            );
            m += 1;
        }
        let records = finalize_records(&table);
        let report = Self::calculate_integrity_report(&records);
        Ok((records, report))
    }

    /// Files the data files of one metric in the table.
    fn process_metric_files(
        entries: &Vec<ArchiveEntry>,
        metric: WeatherMetric,
        station_map: &HashMap<u32, StationMetadata>,
        Ghost(stations): Ghost<Seq<StationView>>,
        table: &mut OrderedTable<WeatherRecord>,
    )
        requires
            is_record_table(*old(table)),
            is_lookup_of(station_map@, stations),
        ensures
            is_record_table(*final(table)),
            records_of(*final(table)) == after_entries(
                records_of(*old(table)),
                entry_views(entries@),
                metric,
                stations,
                entries@.len() as int,
            ),
    {
        let ghost views = entry_views(entries@);
        let mut pattern = String::from_str(metric.to_file_prefix());
        pattern.append("_STAID");
        let pattern = chars_of(pattern.as_str());
        let mut i: usize = 0;
        while i < entries.len()
            invariant
                i <= entries.len(),
                views == entry_views(entries@),
                pattern@ == data_pattern(metric),
                is_lookup_of(station_map@, stations),
                is_record_table(*table),
                records_of(*table) == after_entries(
                    records_of(*old(table)),
                    views,
                    metric,
                    stations,
                    i as int,
                ),
            decreases entries.len() - i,
        {
            let entry = &entries[i];
            assert(views[i as int] == entry@);
            i += 1;
            let name = chars_of(entry.name.as_str());
            if find(&name, &pattern).is_none() {
                continue;
            }
            let base = file_name(&name);
            let id = match station_of_name(&base) {
                Some(id) => id,
                None => {
                    continue;
                },
            };
            let station = match station_map.get(&id) {
                Some(s) => s,
                None => {
                    continue;
                },
            };
            Self::process_file(table, station, metric, entry.content.as_str());
        }
    }

    /// Files the observations of one data file of a station in the table.
    pub fn process_file(
        table: &mut OrderedTable<WeatherRecord>,
        station: &StationMetadata,
        metric: WeatherMetric,
        content: &str,
    )
        requires
            is_record_table(*old(table)),
        ensures
            is_record_table(*final(table)),
            records_of(*final(table)) == with_observations(
                records_of(*old(table)),
                station@,
                metric,
                observations_of_text(content@, station.staid, true),
            ),
    {
        let observations = observations_of(content, station.staid, true);
        upsert_observations(table, station, metric, &observations);
    }

    /// The report on the records of an archive.
    pub fn calculate_integrity_report(records: &Vec<WeatherRecord>) -> (report: IntegrityReport)
        ensures
            report@ == report_of(record_views(records@), JUMP_THRESHOLD),
            report.station_statistics.wf(),
    {
        let checker = IntegrityChecker::new();
        match checker.check_integrity(records) {
            Ok(report) => report,
            Err(_) => IntegrityReport {
                total_records: 0,
                valid_records: 0,
                suspect_records: 0,
                invalid_records: 0,
                missing_data_records: 0,
                temperature_violations: Vec::new(),
                station_statistics: OrderedTable::new(),
            },
        }
    }
}

} // verus!
