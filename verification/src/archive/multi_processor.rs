//! The processing of a directory of archives into one set of unified records.

use vstd::prelude::*;
use vstd::string::*;
use crate::archive::inspector::{
    entry_views,
    metadata_of,
    metric_index,
    ArchiveInspector,
    EntryView,
};
use crate::archive::processor::{archive_records, ArchiveProcessor};
use crate::archive::record_table::{
    emitted,
    finalize_records,
    is_record_table,
    keys_of,
    lemma_key_order,
    merged_record,
    records_of,
    sorted_by_station_and_date,
    upsert_record,
    with_record,
    with_records,
};
use crate::archive::{ArchiveEntry, WeatherMetric};
use crate::error::ProcessingError;
use crate::models::weather::{WeatherRecord, WeatherRecordView};
use crate::processors::integrity_checker::{
    record_views,
    report_of,
    violation_views,
    IntegrityReport,
    IntegrityReportView,
    StationStatistics,
    ViolationView,
    JUMP_THRESHOLD,
};
use crate::readers::temperature_reader::{file_name, file_name_of};
use crate::utils::table::{OrderedTable, TableView};
use crate::utils::text::{
    append_decimal,
    chars_of,
    contains_spec,
    decimal_repr,
    find,
};

verus! {

/// A file of a directory: its path, whether it is a regular file, and, where
/// it could be opened as an archive, the files in it.
#[derive(Debug, Clone)]
pub struct DirectoryFile {
    pub path: String,
    pub is_file: bool,
    pub entries: Option<Vec<ArchiveEntry>>,
}

/// An archive that was found and inspected.
#[derive(Debug, Clone)]
pub struct ArchiveInfo {
    pub path: String,
    pub metrics: Vec<WeatherMetric>,
    pub station_count: usize,
    pub file_count: usize,
}

/// How many records of a result carry each metric family.
#[derive(Debug, Clone)]
pub struct DatasetComposition {
    pub total_records: usize,
    pub records_with_temperature: usize,
    pub records_with_precipitation: usize,
    pub records_with_wind_speed: usize,
    /// The names of the families that some record carries.
    pub available_metrics: Vec<String>,
}

/// A composition as plain values.
pub struct CompositionView {
    pub total_records: nat,
    pub records_with_temperature: nat,
    pub records_with_precipitation: nat,
    pub records_with_wind_speed: nat,
    pub available_metrics: Seq<Seq<char>>,
}

impl View for DatasetComposition {
    type V = CompositionView;

    open spec fn view(&self) -> CompositionView {
        CompositionView {
            total_records: self.total_records as nat,
            records_with_temperature: self.records_with_temperature as nat,
            records_with_precipitation: self.records_with_precipitation as nat,
            records_with_wind_speed: self.records_with_wind_speed as nat,
            available_metrics: self.available_metrics@.map_values(|s: String| s@),
        }
    }
}

/// The archives of a directory and how many workers may process them.
pub struct MultiArchiveProcessor {
    archives: Vec<ArchiveInfo>,
    contents: Vec<Vec<ArchiveEntry>>,
    max_workers: usize,
}

/// What follows the last full stop of a file name that has one after its
/// first character.
pub open spec fn extension_of(name: Seq<char>) -> Option<Seq<char>>
    decreases name.len(),
{
    if name.len() <= 1 {
        None
    } else if name.last() == '.' {
        Some(Seq::empty())
    } else {
        match extension_of(name.drop_last()) {
            Some(e) => Some(e.push(name.last())),
            None => None,
        }
    }
}

/// A regular file with the extension `zip` whose name holds the pattern, if a
/// pattern is asked for.
pub open spec fn is_candidate(path: Seq<char>, is_file: bool, pattern: Option<Seq<char>>) -> bool {
    is_file && extension_of(file_name_of(path)) == Some("zip"@) && (match pattern {
        Some(p) => p.len() == 0 || contains_spec(file_name_of(path), p),
        None => true,
    })
}

/// Whether a text comes before another or equals it, character by character.
pub open spec fn text_le(a: Seq<char>, b: Seq<char>) -> bool
    decreases a.len(),
{
    if a.len() == 0 {
        true
    } else if b.len() == 0 {
        false
    } else if a[0] != b[0] {
        a[0] < b[0]
    } else {
        text_le(a.drop_first(), b.drop_first())
    }
}

/// A directory's file as plain values.
pub struct DirectoryFileView {
    pub path: Seq<char>,
    pub is_file: bool,
    pub entries: Option<Seq<EntryView>>,
}

impl View for DirectoryFile {
    type V = DirectoryFileView;

    open spec fn view(&self) -> DirectoryFileView {
        DirectoryFileView {
            path: self.path@,
            is_file: self.is_file,
            entries: match self.entries {
                Some(e) => Some(entry_views(e@)),
                None => None,
            },
        }
    }
}

/// An archive of the processor as plain values.
pub struct ArchiveView {
    pub path: Seq<char>,
    pub metrics: Seq<WeatherMetric>,
    pub station_count: nat,
    pub file_count: nat,
    pub entries: Seq<EntryView>,
}

/// The archive that a file of a directory is, if it is one: a candidate that
/// could be opened and whose inspection gave metadata.
pub open spec fn archive_of(f: DirectoryFileView, pattern: Option<Seq<char>>) -> Option<
    ArchiveView,
> {
    if !is_candidate(f.path, f.is_file, pattern) {
        None
    } else {
        match f.entries {
            Some(entries) => match metadata_of(entries) {
                Some(meta) => Some(
                    ArchiveView {
                        path: f.path,
                        metrics: meta.metrics,
                        station_count: meta.station_count,
                        file_count: meta.total_files,
                        entries,
                    },
                ),
                None => None,
            },
            None => None,
        }
    }
}

/// Archives in the order of their file names after one more: it goes behind
/// the last archive whose file name does not come after its own.
pub open spec fn placed(sorted: Seq<ArchiveView>, a: ArchiveView) -> Seq<ArchiveView>
    decreases sorted.len(),
{
    if sorted.len() == 0 || text_le(file_name_of(sorted.last().path), file_name_of(a.path)) {
        sorted.push(a)
    } else {
        placed(sorted.drop_last(), a).push(sorted.last())
    }
}

/// The archives among the first `count` files of a directory, in the order
/// of their file names.
pub open spec fn archives_of(
    files: Seq<DirectoryFileView>,
    pattern: Option<Seq<char>>,
    count: int,
) -> Seq<ArchiveView>
    decreases count,
{
    if count <= 0 {
        Seq::empty()
    } else {
        let before = archives_of(files, pattern, count - 1);
        match archive_of(files[count - 1], pattern) {
            Some(a) => placed(before, a),
            None => before,
        }
    }
}

/// The metrics seen so far and, of the first `count` of `more`, those not
/// seen before, in their order.
pub open spec fn metrics_joined(seen: Seq<WeatherMetric>, more: Seq<WeatherMetric>, count: int)
    -> Seq<WeatherMetric>
    decreases count,
{
    if count <= 0 {
        seen
    } else {
        let before = metrics_joined(seen, more, count - 1);
        if before.contains(more[count - 1]) {
            before
        } else {
            before.push(more[count - 1])
        }
    }
}

/// The metrics of the first `count` archives, each once, in the order in
/// which they first occur.
pub open spec fn unique_metrics(archives: Seq<ArchiveView>, count: int) -> Seq<WeatherMetric>
    decreases count,
{
    if count <= 0 {
        Seq::empty()
    } else {
        metrics_joined(
            unique_metrics(archives, count - 1),
            archives[count - 1].metrics,
            archives[count - 1].metrics.len() as int,
        )
    }
}

/// How many of the first `count` archives have the metric.
pub open spec fn archives_with(archives: Seq<ArchiveView>, metric: WeatherMetric, count: int)
    -> nat
    decreases count,
{
    if count <= 0 {
        0
    } else {
        archives_with(archives, metric, count - 1) + if archives[count - 1].metrics.contains(
            metric,
        ) {
            1nat
        } else {
            0nat
        }
    }
}

/// The files of the first `count` archives in sum, at most the greatest
/// number that fits.
pub open spec fn total_files(archives: Seq<ArchiveView>, count: int) -> nat
    decreases count,
{
    if count <= 0 {
        0
    } else {
        capped_sum(total_files(archives, count - 1), archives[count - 1].file_count)
    }
}

/// One line for each of the first `count` metrics: its name and the number
/// of archives that have it.
pub open spec fn metric_lines(archives: Seq<ArchiveView>, metrics: Seq<WeatherMetric>, count: int)
    -> Seq<char>
    decreases count,
{
    if count <= 0 {
        Seq::empty()
    } else {
        metric_lines(archives, metrics, count - 1) + "    "@ + metrics[count - 1].label() + ": "@
            + decimal_repr(archives_with(archives, metrics[count - 1], archives.len() as int))
            + " archives\n"@
    }
}

/// The summary of the archives of a processor.
pub open spec fn summary_text(archives: Seq<ArchiveView>) -> Seq<char> {
    let metrics = unique_metrics(archives, archives.len() as int);
    "Multi-Archive Summary:\n  Archives: "@ + decimal_repr(archives.len()) + "\n  Total Files: "@
        + decimal_repr(total_files(archives, archives.len() as int)) + "\n  Unique Metrics: "@
        + decimal_repr(metrics.len()) + "\n  Available Metrics:\n"@ + metric_lines(
        archives,
        metrics,
        metrics.len() as int,
    )
}

/// The records of a sequence that belong to the station asked for, or all of
/// them where none is asked for.
pub open spec fn of_station(rs: Seq<WeatherRecordView>, station: Option<u32>) -> Seq<
    WeatherRecordView,
>
    decreases rs.len(),
{
    if rs.len() == 0 {
        Seq::empty()
    } else if station is None || station == Some(rs.last().station_id) {
        of_station(rs.drop_last(), station).push(rs.last())
    } else {
        of_station(rs.drop_last(), station)
    }
}

/// Sorted records after the records of the first `count` batches.
pub open spec fn with_batches(batches: Seq<Seq<WeatherRecordView>>, count: int) -> Seq<
    WeatherRecordView,
>
    decreases count,
{
    if count <= 0 {
        Seq::empty()
    } else {
        with_records(with_batches(batches, count - 1), batches[count - 1])
    }
}

/// The unified records of batches of records: the batches are joined by
/// station and day in their order, and what has a value is handed on.
pub open spec fn unified(batches: Seq<Seq<WeatherRecordView>>) -> Seq<WeatherRecordView> {
    emitted(with_batches(batches, batches.len() as int))
}

/// How many of the records satisfy the test.
pub open spec fn count_where(rs: Seq<WeatherRecordView>, test: spec_fn(WeatherRecordView) -> bool)
    -> nat
    decreases rs.len(),
{
    if rs.len() == 0 {
        0
    } else {
        count_where(rs.drop_last(), test) + if test(rs.last()) {
            1nat
        } else {
            0nat
        }
    }
}

pub open spec fn with_temperature(rs: Seq<WeatherRecordView>) -> nat {
    count_where(rs, |r: WeatherRecordView| r.has_temperature_data())
}

pub open spec fn with_precipitation(rs: Seq<WeatherRecordView>) -> nat {
    count_where(rs, |r: WeatherRecordView| r.precipitation is Some)
}

pub open spec fn with_wind_speed(rs: Seq<WeatherRecordView>) -> nat {
    count_where(rs, |r: WeatherRecordView| r.wind_speed is Some)
}

/// The composition of a set of records.
pub open spec fn composition_of(rs: Seq<WeatherRecordView>) -> CompositionView {
    CompositionView {
        total_records: rs.len(),
        records_with_temperature: with_temperature(rs),
        records_with_precipitation: with_precipitation(rs),
        records_with_wind_speed: with_wind_speed(rs),
        available_metrics: (if with_temperature(rs) > 0 {
            seq!["temperature"@]
        } else {
            Seq::<Seq<char>>::empty()
        }) + (if with_precipitation(rs) > 0 {
            seq!["precipitation"@]
        } else {
            Seq::<Seq<char>>::empty()
        }) + (if with_wind_speed(rs) > 0 {
            seq!["wind_speed"@]
        } else {
            Seq::<Seq<char>>::empty()
        }),
    }
}

/// A sum that stops at the greatest number that fits.
pub open spec fn capped_sum(a: nat, b: nat) -> nat {
    if a + b > usize::MAX {
        usize::MAX as nat
    } else {
        a + b
    }
}

/// A table after the first `count` entries of another were put into it.
pub open spec fn put_entries(
    t: TableView<StationStatistics>,
    from: TableView<StationStatistics>,
    count: int,
) -> TableView<StationStatistics>
    decreases count,
{
    if count <= 0 {
        t
    } else {
        put_entries(t, from, count - 1).put(from.keys[count - 1], from.values[count - 1])
    }
}

pub open spec fn empty_report() -> IntegrityReportView {
    IntegrityReportView {
        total_records: 0,
        valid_records: 0,
        suspect_records: 0,
        invalid_records: 0,
        missing_data_records: 0,
        temperature_violations: Seq::empty(),
        station_statistics: TableView::empty(),
    }
}

/// The number of entries of a table that have both a key and a value.
pub open spec fn paired_entries(t: TableView<StationStatistics>) -> int {
    if t.keys.len() <= t.values.len() {
        t.keys.len() as int
    } else {
        t.values.len() as int
    }
}

/// A report joined with the next: the counts are summed, the violations of
/// the next follow those so far, and the statistics of a station in the next
/// take the place of those so far.
pub open spec fn joined_report(a: IntegrityReportView, b: IntegrityReportView)
    -> IntegrityReportView {
    IntegrityReportView {
        total_records: capped_sum(a.total_records, b.total_records),
        valid_records: capped_sum(a.valid_records, b.valid_records),
        suspect_records: capped_sum(a.suspect_records, b.suspect_records),
        invalid_records: capped_sum(a.invalid_records, b.invalid_records),
        missing_data_records: capped_sum(a.missing_data_records, b.missing_data_records),
        temperature_violations: a.temperature_violations + b.temperature_violations,
        station_statistics: put_entries(
            a.station_statistics,
            b.station_statistics,
            paired_entries(b.station_statistics),
        ),
    }
}

/// The first `count` reports joined in their order.
pub open spec fn combined(reports: Seq<IntegrityReportView>, count: int) -> IntegrityReportView
    decreases count,
{
    if count <= 0 {
        empty_report()
    } else {
        joined_report(combined(reports, count - 1), reports[count - 1])
    }
}

pub open spec fn report_views(reports: Seq<IntegrityReport>) -> Seq<IntegrityReportView> {
    reports.map_values(|r: IntegrityReport| r@)
}

pub open spec fn batch_views(batches: Seq<Vec<WeatherRecord>>) -> Seq<Seq<WeatherRecordView>> {
    batches.map_values(|b: Vec<WeatherRecord>| record_views(b@))
}

/// Two records of one station and day, one with temperatures alone and one
/// with a precipitation alone, merge into the same record in either order.
/// The two have to agree on the station's name and position, which a merge
/// takes from its first record.
pub proof fn lemma_disjoint_merge_commutes(a: WeatherRecordView, b: WeatherRecordView)
    requires
        a.station_id == b.station_id,
        a.date == b.date,
        a.station_name == b.station_name,
        a.latitude == b.latitude,
        a.longitude == b.longitude,
        a.precipitation is None && a.wind_speed is None && a.precip_quality is None
            && a.wind_quality is None,
        b.temp_min is None && b.temp_max is None && b.temp_avg is None && b.temp_quality is None
            && b.wind_speed is None && b.wind_quality is None,
    ensures
        merged_record(a, b) == merged_record(b, a),
        unified(seq![seq![a], seq![b]]) == unified(seq![seq![b], seq![a]]),
{
    lemma_pair_of_singles(a, b);
    lemma_pair_of_singles(b, a);
}

/// Two batches of one record each, for one station and day, unify to the
/// merge of the two records.
proof fn lemma_pair_of_singles(a: WeatherRecordView, b: WeatherRecordView)
    requires
        a.station_id == b.station_id,
        a.date == b.date,
    ensures
        with_batches(seq![seq![a], seq![b]], 2) == seq![merged_record(a, b)],
{
    let batches = seq![seq![a], seq![b]];
    let none = Seq::<WeatherRecordView>::empty();
    reveal_with_fuel(with_records, 3);
    reveal_with_fuel(with_batches, 3);
    assert(with_batches(batches, 0) == none);
    assert(seq![a].drop_last() =~= none);
    assert(seq![b].drop_last() =~= none);
    assert(with_records(none, seq![a]) == with_record(none, a));
    assert(keys_of(none) =~= Seq::<u128>::empty());
    assert(with_record(none, a) =~= seq![a]);
    assert(with_batches(batches, 1) == seq![a]);
    assert(with_records(seq![a], seq![b]) == with_record(seq![a], b));
    lemma_key_order(a.station_id, a.date, b.station_id, b.date);
    let keys = keys_of(seq![a]);
    assert(keys.len() == 1 && keys[0] == crate::archive::record_table::key_of(a));
    assert(keys.drop_last() =~= Seq::<u128>::empty());
    assert(crate::utils::table::rank_of(keys, crate::archive::record_table::key_of(b)) == 0);
    assert(with_record(seq![a], b) =~= seq![merged_record(a, b)]);
}

fn text_le_exec(a: &Vec<char>, b: &Vec<char>) -> (r: bool)
    ensures
        r == text_le(a@, b@),
{
    let mut i: usize = 0;
    assert(a@.skip(0) =~= a@ && b@.skip(0) =~= b@);
    loop
        invariant
            i <= a.len(),
            i <= b.len(),
            text_le(a@, b@) == text_le(a@.skip(i as int), b@.skip(i as int)),
        decreases a.len() - i,
    {
        if i == a.len() {
            return true;
        }
        if i == b.len() {
            return false;
        }
        if a[i] != b[i] {
            return a[i] < b[i];
        }
        proof {
            assert(a@.skip(i as int).drop_first() =~= a@.skip(i as int + 1));
            assert(b@.skip(i as int).drop_first() =~= b@.skip(i as int + 1));
        }
        i += 1;
    }
}

fn extension(name: &Vec<char>) -> (r: Option<Vec<char>>)
    ensures
        match r {
            Some(e) => extension_of(name@) == Some(e@),
            None => extension_of(name@).is_none(),
        },
{
    let mut ext: Option<Vec<char>> = None;
    let mut i: usize = 0;
    assert(name@.take(0) =~= Seq::<char>::empty());
    while i < name.len()
        invariant
            i <= name.len(),
            match ext {
                Some(e) => extension_of(name@.take(i as int)) == Some(e@),
                None => extension_of(name@.take(i as int)).is_none(),
            },
        decreases name.len() - i,
    {
        proof {
            let next = name@.take(i as int + 1);
            assert(next.drop_last() =~= name@.take(i as int));
        }
        if i >= 1 {
            if name[i] == '.' {
                ext = Some(Vec::new());
            } else {
                ext = match ext {
                    Some(e) => {
                        let mut e = e;
                        e.push(name[i]);
                        Some(e)
                    },
                    None => None,
                };
            }
        }
        i += 1;
    }
    assert(name@.take(name.len() as int) =~= name@);
    ext
}

fn capped_add(a: usize, b: usize) -> (r: usize)
    ensures
        r == capped_sum(a as nat, b as nat),
{
    if a > usize::MAX - b {
        usize::MAX
    } else {
        a + b
    }
}

impl ArchiveInfo {
    /// A copy of the archive's description.
    pub fn duplicate(&self) -> (r: ArchiveInfo)
        ensures
            r.path@ == self.path@,
            r.metrics@ == self.metrics@,
            r.station_count == self.station_count,
            r.file_count == self.file_count,
    {
        let mut metrics: Vec<WeatherMetric> = Vec::new();
        let mut i: usize = 0;
        while i < self.metrics.len()
            invariant
                i <= self.metrics.len(),
                metrics@ == self.metrics@.take(i as int),
            decreases self.metrics.len() - i,
        {
            metrics.push(self.metrics[i]);
            i += 1;
        }
        assert(self.metrics@.take(self.metrics.len() as int) =~= self.metrics@);
        ArchiveInfo {
            path: self.path.clone(),
            metrics,
            station_count: self.station_count,
            file_count: self.file_count,
        }
    }
}

/// Archives and their files as plain values.
pub open spec fn views_of(archives: Seq<ArchiveInfo>, contents: Seq<Vec<ArchiveEntry>>) -> Seq<
    ArchiveView,
> {
    Seq::new(
        archives.len(),
        |i: int|
            ArchiveView {
                path: archives[i].path@,
                metrics: archives[i].metrics@,
                station_count: archives[i].station_count as nat,
                file_count: archives[i].file_count as nat,
                entries: entry_views(contents[i]@),
            },
    )
}

/// Whether the file name of an archive does not come after the given one.
fn stands_before(archives: &Vec<ArchiveInfo>, at: usize, name: &Vec<char>) -> (r: bool)
    requires
        at < archives@.len(),
    ensures
        r == text_le(file_name_of(archives@[at as int].path@), name@),
{
    let theirs = file_name(&chars_of(archives[at].path.as_str()));
    text_le_exec(&theirs, name)
}

/// Puts an archive behind the last one whose file name does not come after
/// its own.
fn place(
    archives: &mut Vec<ArchiveInfo>,
    contents: &mut Vec<Vec<ArchiveEntry>>,
    info: ArchiveInfo,
    entries: Vec<ArchiveEntry>,
)
    requires
        old(archives)@.len() == old(contents)@.len(),
    ensures
        final(archives)@.len() == final(contents)@.len(),
        views_of(final(archives)@, final(contents)@) == placed(
            views_of(old(archives)@, old(contents)@),
            ArchiveView {
                path: info.path@,
                metrics: info.metrics@,
                station_count: info.station_count as nat,
                file_count: info.file_count as nat,
                entries: entry_views(entries@),
            },
        ),
{
    let ghost before = views_of(archives@, contents@);
    let ghost added = ArchiveView {
        path: info.path@,
        metrics: info.metrics@,
        station_count: info.station_count as nat,
        file_count: info.file_count as nat,
        entries: entry_views(entries@),
    };
    let mine = file_name(&chars_of(info.path.as_str()));
    let mut at: usize = archives.len();
    assert(before.take(at as int) =~= before);
    assert(before.skip(at as int) =~= Seq::<ArchiveView>::empty());
    assert(placed(before.take(at as int), added) + before.skip(at as int) =~= placed(
        before,
        added,
    ));
    while at > 0 && !stands_before(archives, at - 1, &mine)
        invariant
            at <= archives@.len(),
            archives@.len() == contents@.len(),
            views_of(archives@, contents@) == before,
            mine@ == file_name_of(added.path),
            placed(before, added) == placed(before.take(at as int), added) + before.skip(at as int),
        decreases at,
    {
        proof {
            let head = before.take(at as int);
            assert(head.last() == before[at as int - 1]);
            assert(head.drop_last() =~= before.take(at as int - 1));
            assert(seq![before[at as int - 1]] + before.skip(at as int) =~= before.skip(
                at as int - 1,
            ));
            assert(placed(head, added) == placed(head.drop_last(), added).push(head.last()));
            assert(placed(head.drop_last(), added).push(head.last()) + before.skip(at as int)
                =~= placed(head.drop_last(), added) + before.skip(at as int - 1));
        }
        at -= 1;
    }
    proof {
        let head = before.take(at as int);
        if at > 0 {
            assert(head.last() == before[at as int - 1]);
        }
        assert(placed(head, added) == head.push(added));
    }
    archives.insert(at, info);
    contents.insert(at, entries);
    proof {
        assert(views_of(archives@, contents@) =~= before.take(at as int).push(added) + before.skip(
            at as int,
        ));
    }
}

impl MultiArchiveProcessor {
    /// The archives of the processor, as plain values.
    pub closed spec fn archive_views(&self) -> Seq<ArchiveView> {
        views_of(self.archives@, self.contents@)
    }

    /// Each archive comes with its files.
    #[verifier::type_invariant]
    spec fn wf(&self) -> bool {
        self.archives@.len() == self.contents@.len()
    }

    pub closed spec fn workers(&self) -> usize {
        self.max_workers
    }

    /// Whether a file of a directory is taken for an archive to process.
    pub fn is_archive_candidate(path: &str, is_file: bool, file_pattern: Option<&str>) -> (r: bool)
        ensures
            r == is_candidate(
                path@,
                is_file,
                match file_pattern {
                    Some(p) => Some(p@),
                    None => None,
                },
            ),
    {
        if !is_file {
            return false;
        }
        let chars = chars_of(path);
        let name = file_name(&chars);
        let zip = chars_of("zip");
        let is_zip = match extension(&name) {
            Some(e) => crate::utils::text::seq_equal(&e, &zip),
            None => false,
        };
        if !is_zip {
            return false;
        }
        match file_pattern {
            Some(p) => {
                let pattern = chars_of(p);
                pattern.len() == 0 || find(&name, &pattern).is_some()
            },
            None => true,
        }
    }

    /// The processor for the archives among the files of a directory: the
    /// candidates that could be opened and inspected, in the order of their
    /// file names. A directory without any is refused.
    pub fn from_directory(
        files: Vec<DirectoryFile>,
        file_pattern: Option<&str>,
        max_workers: usize,
    ) -> (r: Result<MultiArchiveProcessor, ProcessingError>)
        ensures
            ({
                let pattern = match file_pattern {
                    Some(p) => Some(p@),
                    None => None,
                };
                let found = archives_of(
                    files@.map_values(|f: DirectoryFile| f@),
                    pattern,
                    files@.len() as int,
                );
                match r {
                    Ok(p) => found.len() > 0 && p.archive_views() == found && p.workers()
                        == max_workers,
                    Err(e) => found.len() == 0 && e is InvalidFormat,
                }
            }),
    {
        let ghost views = files@.map_values(|f: DirectoryFile| f@);
        let ghost pattern = match file_pattern {
            Some(p) => Some(p@),
            None => None,
        };
        let mut archives: Vec<ArchiveInfo> = Vec::new();
        let mut contents: Vec<Vec<ArchiveEntry>> = Vec::new();
        let mut i: usize = 0;
        assert(views_of(archives@, contents@) =~= Seq::<ArchiveView>::empty());
        while i < files.len()
            invariant
                i <= files.len(),
                views == files@.map_values(|f: DirectoryFile| f@),
                pattern == (match file_pattern {
                    Some(p) => Some(p@),
                    None => None,
                }),
                archives@.len() == contents@.len(),
                views_of(archives@, contents@) == archives_of(views, pattern, i as int),
            decreases files.len() - i,
        {
            let file = &files[i];
            assert(views[i as int] == file@);
            i += 1;
            if !Self::is_archive_candidate(file.path.as_str(), file.is_file, file_pattern) {
                continue;
            }
            let entries = match &file.entries {
                Some(e) => e,
                None => {
                    continue;
                },
            };
            let meta = match ArchiveInspector::inspect_zip(entries) {
                Ok(m) => m,
                Err(_) => {
                    continue;
                },
            };
            let info = ArchiveInfo {
                path: file.path.clone(),
                metrics: meta.metrics,
                station_count: meta.station_count,
                file_count: meta.total_files,
            };
            place(&mut archives, &mut contents, info, duplicate_entries(entries));
        }
        if archives.len() == 0 {
            return Err(
                ProcessingError::InvalidFormat(
                    String::from_str("No valid zip files found in directory"),
                ),
            );
        }
        Ok(MultiArchiveProcessor { archives, contents, max_workers })
    }

    /// The archives, their files and their metrics as a few lines of text.
    pub fn get_summary(&self) -> (s: String)
        ensures
            s@ == summary_text(self.archive_views()),
    {
        proof {
            use_type_invariant(self);
        }
        let ghost archives = self.archive_views();
        let mut files: usize = 0;
        let mut metrics: Vec<WeatherMetric> = Vec::new();
        let mut a: usize = 0;
        while a < self.archives.len()
            invariant
                a <= self.archives@.len(),
                self.archives@.len() == self.contents@.len(),
                archives == self.archive_views(),
                files == total_files(archives, a as int),
                metrics@ == unique_metrics(archives, a as int),
            decreases self.archives.len() - a,
        {
            let info = &self.archives[a];
            assert(archives[a as int].metrics == info.metrics@);
            files = capped_add(files, info.file_count);
            let ghost seen = metrics@;
            let mut m: usize = 0;
            while m < info.metrics.len()
                invariant
                    m <= info.metrics@.len(),
                    metrics@ == metrics_joined(seen, info.metrics@, m as int),
                decreases info.metrics.len() - m,
            {
                if metric_index(&metrics, info.metrics[m]).is_none() {
                    metrics.push(info.metrics[m]);
                }
                m += 1;
            }
            a += 1;
        }
        let mut s = String::from_str("Multi-Archive Summary:\n  Archives: ");
        append_decimal(&mut s, self.archives.len() as u64);
        s.append("\n  Total Files: ");
        append_decimal(&mut s, files as u64);
        s.append("\n  Unique Metrics: ");
        append_decimal(&mut s, metrics.len() as u64);
        s.append("\n  Available Metrics:\n");
        let ghost head = s@;
        let mut k: usize = 0;
        assert(head + Seq::<char>::empty() =~= head);
        while k < metrics.len()
            invariant
                k <= metrics.len(),
                archives == self.archive_views(),
                s@ == head + metric_lines(archives, metrics@, k as int),
            decreases metrics.len() - k,
        {
            let count = self.archives_having(metrics[k]);
            let ghost before = s@;
            s.append("    ");
            s.append(metrics[k].display_name());
            s.append(": ");
            append_decimal(&mut s, count as u64);
            s.append(" archives\n");
            assert(s@ =~= head + metric_lines(archives, metrics@, k as int + 1));
            k += 1;
        }
        assert(s@ =~= summary_text(archives));
        s
    }

    /// How many archives have the metric.
    fn archives_having(&self, metric: WeatherMetric) -> (n: usize)
        ensures
            n == archives_with(self.archive_views(), metric, self.archive_views().len() as int),
    {
        proof {
            use_type_invariant(self);
        }
        let ghost archives = self.archive_views();
        let mut n: usize = 0;
        let mut a: usize = 0;
        while a < self.archives.len()
            invariant
                a <= self.archives@.len(),
                self.archives@.len() == self.contents@.len(),
                archives == self.archive_views(),
                n == archives_with(archives, metric, a as int),
                n <= a,
            decreases self.archives.len() - a,
        {
            assert(archives[a as int].metrics == self.archives@[a as int].metrics@);
            if metric_index(&self.archives[a].metrics, metric).is_some() {
                n += 1;
            }
            a += 1;
        }
        n
    }

    /// The paths of the archives, in the order in which they are processed.
    pub fn archive_paths(&self) -> (r: Vec<String>)
        ensures
            r@.len() == self.archive_views().len(),
            forall|i: int| 0 <= i < r@.len() ==> r@[i]@ == self.archive_views()[i].path,
    {
        proof {
            use_type_invariant(self);
        }
        let mut r: Vec<String> = Vec::new();
        let mut i: usize = 0;
        while i < self.archives.len()
            invariant
                i <= self.archives@.len(),
                self.archives@.len() == self.contents@.len(),
                r@.len() == i,
                forall|j: int| 0 <= j < i ==> r@[j]@ == self.archive_views()[j].path,
            decreases self.archives.len() - i,
        {
            r.push(self.archives[i].path.clone());
            i += 1;
        }
        r
    }

    /// The number of archives.
    pub fn archive_count(&self) -> (n: usize)
        ensures
            n == self.archive_views().len(),
    {
        self.archives.len()
    }

    /// How many workers may process archives at a time.
    pub fn max_workers(&self) -> (n: usize)
        ensures
            n == self.workers(),
    {
        self.max_workers
    }

    /// What is known of the archive at a place.
    pub fn archive(&self, i: usize) -> (a: &ArchiveInfo)
        requires
            i < self.archive_views().len(),
        ensures
            a.path@ == self.archive_views()[i as int].path,
            a.metrics@ == self.archive_views()[i as int].metrics,
    {
        proof {
            use_type_invariant(self);
        }
        &self.archives[i]
    }

    /// The files of the archive at a place.
    pub fn archive_entries(&self, i: usize) -> (e: &Vec<ArchiveEntry>)
        requires
            i < self.archive_views().len(),
        ensures
            entry_views(e@) == self.archive_views()[i as int].entries,
    {
        proof {
            use_type_invariant(self);
        }
        &self.contents[i]
    }

    /// Joins one record into another for the same station and day: each
    /// value and flag of `source` that is there takes the place of the one in
    /// `target`. Records of different stations or days are refused.
    pub fn merge_weather_records(target: &mut WeatherRecord, source: WeatherRecord) -> (r: Result<
        (),
        ProcessingError,
    >)
        ensures
            match r {
                Ok(()) => old(target).station_id == source.station_id && old(target).date
                    == source.date && final(target)@ == merged_record(old(target)@, source@),
                Err(e) => !(old(target).station_id == source.station_id && old(target).date
                    == source.date) && e is InvalidFormat && final(target)@ == old(target)@,
            },
    {
        if target.station_id != source.station_id || target.date != source.date {
            return Err(
                ProcessingError::InvalidFormat(
                    String::from_str("Cannot merge records: station/date mismatch"),
                ),
            );
        }
        target.merge_from(&source);
        Ok(())
    }

    /// The unified records of batches of records, in the order of station and
    /// day, and their composition.
    pub fn merge_records_by_key(records_by_archive: Vec<Vec<WeatherRecord>>) -> (r: Result<
        (Vec<WeatherRecord>, DatasetComposition),
        ProcessingError,
    >)
        ensures
            r matches Ok((records, composition)) && {
                &&& record_views(records@) == unified(batch_views(records_by_archive@))
                &&& sorted_by_station_and_date(record_views(records@))
                &&& forall|i: int|
                    0 <= i < records@.len() ==> (#[trigger] records@[i])@.has_any_metric()
                &&& composition@ == composition_of(record_views(records@))
            },
    {
        let ghost batches = batch_views(records_by_archive@);
        let mut table: OrderedTable<WeatherRecord> = OrderedTable::new();
        assert(records_of(table) =~= Seq::<WeatherRecordView>::empty());
        assert(keys_of(records_of(table)) =~= table.keys@);
        let mut a: usize = 0;
        while a < records_by_archive.len()
            invariant
                a <= records_by_archive.len(),
                batches == batch_views(records_by_archive@),
                is_record_table(table),
                records_of(table) == with_batches(batches, a as int),
            decreases records_by_archive.len() - a,
        {
            let batch = &records_by_archive[a];
            let ghost views = record_views(batch@);
            assert(batches[a as int] == views);
            let ghost start = records_of(table);
            let mut i: usize = 0;
            assert(views.take(0) =~= Seq::<WeatherRecordView>::empty());
            while i < batch.len()
                invariant
                    i <= batch.len(),
                    views == record_views(batch@),
                    is_record_table(table),
                    records_of(table) == with_records(start, views.take(i as int)),
                decreases batch.len() - i,
            {
                proof {
                    let next = views.take(i as int + 1);
                    assert(next.drop_last() =~= views.take(i as int));
                    assert(next.last() == batch@[i as int]@);
                }
                upsert_record(&mut table, batch[i].duplicate());
                i += 1;
            }
            assert(views.take(batch.len() as int) =~= views);
            a += 1;
        }
        let records = finalize_records(&table);
        let composition = Self::composition(&records);
        Ok((records, composition))
    }

    /// How many of the records carry each metric family.
    pub fn composition(records: &Vec<WeatherRecord>) -> (c: DatasetComposition)
        ensures
            c@ == composition_of(record_views(records@)),
    {
        let ghost views = record_views(records@);
        let mut temperature: usize = 0;
        let mut precipitation: usize = 0;
        let mut wind: usize = 0;
        let mut i: usize = 0;
        assert(views.take(0) =~= Seq::<WeatherRecordView>::empty());
        while i < records.len()
            invariant
                i <= records.len(),
                views == record_views(records@),
                temperature == with_temperature(views.take(i as int)),
                precipitation == with_precipitation(views.take(i as int)),
                wind == with_wind_speed(views.take(i as int)),
                temperature <= i && precipitation <= i && wind <= i,
            decreases records.len() - i,
        {
            proof {
                let next = views.take(i as int + 1);
                assert(next.drop_last() =~= views.take(i as int));
                assert(next.last() == records@[i as int]@);
            }
            if records[i].has_temperature_data() {
                temperature += 1;
            }
            if records[i].has_precipitation() {
                precipitation += 1;
            }
            if records[i].has_wind_speed() {
                wind += 1;
            }
            i += 1;
        }
        assert(views.take(records.len() as int) =~= views);
        let mut available: Vec<String> = Vec::new();
        if temperature > 0 {
            available.push(String::from_str("temperature"));
        }
        if precipitation > 0 {
            available.push(String::from_str("precipitation"));
        }
        if wind > 0 {
            available.push(String::from_str("wind_speed"));
        }
        let c = DatasetComposition {
            total_records: records.len(),
            records_with_temperature: temperature,
            records_with_precipitation: precipitation,
            records_with_wind_speed: wind,
            available_metrics: available,
        };
        assert(c@.available_metrics =~= composition_of(views).available_metrics);
        c
    }

    /// The reports joined in their order.
    pub fn combine_integrity_reports(reports: Vec<IntegrityReport>) -> (r: IntegrityReport)
        ensures
            r@ == combined(report_views(reports@), reports@.len() as int),
            r.station_statistics.wf(),
    {
        let ghost views = report_views(reports@);
        let mut total: usize = 0;
        let mut valid: usize = 0;
        let mut suspect: usize = 0;
        let mut invalid: usize = 0;
        let mut missing: usize = 0;
        let mut violations: Vec<crate::processors::integrity_checker::TemperatureViolation> =
            Vec::new();
        let mut stations: OrderedTable<StationStatistics> = OrderedTable::new();
        assert(violation_views(violations@) =~= Seq::<ViolationView>::empty());
        let mut i: usize = 0;
        while i < reports.len()
            invariant
                i <= reports.len(),
                views == report_views(reports@),
                stations.wf(),
                combined(views, i as int) == (IntegrityReportView {
                    total_records: total as nat,
                    valid_records: valid as nat,
                    suspect_records: suspect as nat,
                    invalid_records: invalid as nat,
                    missing_data_records: missing as nat,
                    temperature_violations: violation_views(violations@),
                    station_statistics: stations@,
                }),
            decreases reports.len() - i,
        {
            let report = &reports[i];
            assert(views[i as int] == report@);
            let ghost before = combined(views, i as int);
            total = capped_add(total, report.total_records);
            valid = capped_add(valid, report.valid_records);
            suspect = capped_add(suspect, report.suspect_records);
            invalid = capped_add(invalid, report.invalid_records);
            missing = capped_add(missing, report.missing_data_records);
            let mut v: usize = 0;
            assert(violation_views(report.temperature_violations@).take(0) =~= Seq::<
                ViolationView,
            >::empty());
            while v < report.temperature_violations.len()
                invariant
                    v <= report.temperature_violations.len(),
                    violation_views(violations@) == before.temperature_violations
                        + violation_views(report.temperature_violations@).take(v as int),
                decreases report.temperature_violations.len() - v,
            {
                let ghost so_far = violation_views(violations@);
                violations.push(report.temperature_violations[v].duplicate());
                assert(violation_views(violations@) =~= so_far.push(
                    report.temperature_violations@[v as int]@,
                ));
                assert(violation_views(violations@) =~= before.temperature_violations
                    + violation_views(report.temperature_violations@).take(v as int + 1));
                v += 1;
            }
            assert(violation_views(report.temperature_violations@).take(
                report.temperature_violations.len() as int,
            ) =~= violation_views(report.temperature_violations@));
            let entries: usize = if report.station_statistics.keys.len()
                <= report.station_statistics.values.len() {
                report.station_statistics.keys.len()
            } else {
                report.station_statistics.values.len()
            };
            let mut s: usize = 0;
            while s < entries
                invariant
                    s <= entries,
                    entries == paired_entries(report.station_statistics@),
                    stations.wf(),
                    stations@ == put_entries(
                        before.station_statistics,
                        report.station_statistics@,
                        s as int,
                    ),
                decreases entries - s,
            {
                stations.put(
                    report.station_statistics.keys[s],
                    report.station_statistics.values[s],
                );
                s += 1;
            }
            i += 1;
        }
        IntegrityReport {
            total_records: total,
            valid_records: valid,
            suspect_records: suspect,
            invalid_records: invalid,
            missing_data_records: missing,
            temperature_violations: violations,
            station_statistics: stations,
        }
    }

    /// The unified records of all archives, the joined report and the
    /// composition of the result. Each archive is processed by itself; of its
    /// records those of the station asked for go into the result. The run
    /// fails if the processing of an archive fails.
    pub fn process_unified_data(self, station_filter: Option<u32>) -> (r: Result<
        (Vec<WeatherRecord>, IntegrityReport, DatasetComposition),
        ProcessingError,
    >)
        ensures
            match r {
                Ok((records, report, composition)) => {
                    let batches = outcomes(self.archive_views());
                    &&& all_processable(self.archive_views())
                    &&& record_views(records@) == unified(
                        station_batches(batches, station_filter),
                    )
                    &&& sorted_by_station_and_date(record_views(records@))
                    &&& forall|i: int|
                        0 <= i < records@.len() ==> (#[trigger] records@[i])@.has_any_metric()
                    &&& report@ == combined(
                        batch_reports(batches),
                        batches.len() as int,
                    )
                    &&& composition@ == composition_of(record_views(records@))
                },
                Err(e) => !all_processable(self.archive_views()) && e is InvalidFormat,
            },
    {
        let (batches, reports) = match self.process_archives(station_filter) {
            Ok(pair) => pair,
            Err(e) => {
                return Err(e);
            },
        };
        proof {
            let whole = outcomes(self.archive_views());
            assert(report_views(reports@).len() == reports@.len());
            assert(batch_reports(whole).len() == whole.len());
        }
        let (records, composition) = match Self::merge_records_by_key(batches) {
            Ok(pair) => pair,
            Err(e) => {
                return Err(e);
            },
        };
        let report = Self::combine_integrity_reports(reports);
        Ok((records, report, composition))
    }

    /// The records and the report of each archive; of the records those of
    /// the station asked for.
    pub fn process_archives(&self, station_filter: Option<u32>) -> (r: Result<
        (Vec<Vec<WeatherRecord>>, Vec<IntegrityReport>),
        ProcessingError,
    >)
        ensures
            match r {
                Ok((batches, reports)) => {
                    let whole = outcomes(self.archive_views());
                    &&& all_processable(self.archive_views())
                    &&& batch_views(batches@) == station_batches(whole, station_filter)
                    &&& report_views(reports@) == batch_reports(whole)
                    &&& forall|i: int|
                        0 <= i < reports@.len() ==> (
                        #[trigger] reports@[i]).station_statistics.wf()
                },
                Err(e) => !all_processable(self.archive_views()) && e is InvalidFormat,
            },
    {
        proof {
            use_type_invariant(self);
        }
        let ghost archives = self.archive_views();
        let ghost whole = outcomes(archives);
        let mut batches: Vec<Vec<WeatherRecord>> = Vec::new();
        let mut reports: Vec<IntegrityReport> = Vec::new();
        let mut i: usize = 0;
        while i < self.archives.len()
            invariant
                i <= self.archives@.len(),
                self.archives@.len() == self.contents@.len(),
                archives == self.archive_views(),
                whole == outcomes(archives),
                batches@.len() == i,
                reports@.len() == i,
                forall|j: int| 0 <= j < i ==> (#[trigger] outcome_of(archives[j])) is Some,
                forall|j: int|
                    0 <= j < i ==> record_views((#[trigger] batches@[j])@) == of_station(
                        whole[j],
                        station_filter,
                    ),
                forall|j: int|
                    0 <= j < i ==> (#[trigger] reports@[j])@ == report_of(whole[j], JUMP_THRESHOLD)
                        && reports@[j].station_statistics.wf(),
            decreases self.archives.len() - i,
        {
            let entries = &self.contents[i];
            assert(archives[i as int].entries == entry_views(entries@));
            let processor = match ArchiveProcessor::from_zip(entries) {
                Ok(p) => p,
                Err(e) => {
                    assert(outcome_of(archives[i as int]) is None);
                    return Err(e);
                },
            };
            let (records, report) = match processor.process_data(entries) {
                Ok(pair) => pair,
                Err(e) => {
                    assert(outcome_of(archives[i as int]) is None);
                    return Err(e);
                },
            };
            assert(outcome_of(archives[i as int]) == Some(record_views(records@)));
            assert(whole[i as int] == record_views(records@));
            let kept = Self::records_of_station(&records, station_filter);
            batches.push(kept);
            reports.push(report);
            i += 1;
        }
        proof {
            assert(batch_views(batches@) =~= station_batches(whole, station_filter));
            assert(report_views(reports@) =~= batch_reports(whole));
        }
        Ok((batches, reports))
    }

    /// The records of a sequence that belong to the station asked for.
    pub fn records_of_station(records: &Vec<WeatherRecord>, station: Option<u32>) -> (r: Vec<
        WeatherRecord,
    >)
        ensures
            record_views(r@) == of_station(record_views(records@), station),
    {
        let ghost views = record_views(records@);
        let mut r: Vec<WeatherRecord> = Vec::new();
        let mut i: usize = 0;
        assert(views.take(0) =~= Seq::<WeatherRecordView>::empty());
        assert(record_views(r@) =~= Seq::<WeatherRecordView>::empty());
        while i < records.len()
            invariant
                i <= records.len(),
                views == record_views(records@),
                record_views(r@) == of_station(views.take(i as int), station),
            decreases records.len() - i,
        {
            proof {
                let next = views.take(i as int + 1);
                assert(next.drop_last() =~= views.take(i as int));
                assert(next.last() == records@[i as int]@);
            }
            let keep = match station {
                Some(id) => records[i].station_id == id,
                None => true,
            };
            if keep {
                let ghost before = record_views(r@);
                r.push(records[i].duplicate());
                assert(record_views(r@) =~= before.push(records@[i as int]@));
            }
            i += 1;
        }
        assert(views.take(records.len() as int) =~= views);
        r
    }
}

/// The records that the processing of an archive gives; nothing where its
/// inspection fails or it has no station catalog.
pub open spec fn outcome_of(a: ArchiveView) -> Option<Seq<WeatherRecordView>> {
    match metadata_of(a.entries) {
        Some(meta) => archive_records(a.entries, meta.metrics),
        None => None,
    }
}

/// Of each batch the records of the station asked for.
pub open spec fn station_batches(batches: Seq<Seq<WeatherRecordView>>, station: Option<u32>) -> Seq<
    Seq<WeatherRecordView>,
> {
    Seq::new(batches.len(), |j: int| of_station(batches[j], station))
}

/// The report on each batch.
pub open spec fn batch_reports(batches: Seq<Seq<WeatherRecordView>>) -> Seq<IntegrityReportView> {
    Seq::new(batches.len(), |j: int| report_of(batches[j], JUMP_THRESHOLD))
}

/// Whether the processing of every archive gives records.
pub open spec fn all_processable(archives: Seq<ArchiveView>) -> bool {
    forall|j: int| 0 <= j < archives.len() ==> (#[trigger] outcome_of(archives[j])) is Some
}

/// The records that each archive gives.
pub open spec fn outcomes(archives: Seq<ArchiveView>) -> Seq<Seq<WeatherRecordView>> {
    Seq::new(archives.len(), |j: int| outcome_of(archives[j])->0)
}

fn duplicate_entries(entries: &Vec<ArchiveEntry>) -> (r: Vec<ArchiveEntry>)
    ensures
        entry_views(r@) == entry_views(entries@),
{
    let mut r: Vec<ArchiveEntry> = Vec::new();
    let mut i: usize = 0;
    while i < entries.len()
        invariant
            i <= entries.len(),
            r@.len() == i,
            forall|j: int| 0 <= j < i ==> r@[j]@ == entries@[j]@,
        decreases entries.len() - i,
    {
        r.push(ArchiveEntry { name: entries[i].name.clone(), content: entries[i].content.clone() });
        i += 1;
    }
    assert(entry_views(r@) =~= entry_views(entries@));
    r
}

} // verus!
