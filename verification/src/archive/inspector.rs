//! What an archive holds: its country, its metrics and its files.

use vstd::prelude::*;
use vstd::string::*;
use std::collections::HashSet;
use crate::archive::{metric_of_prefix, metric_of_prefix_chars, ArchiveEntry, WeatherMetric};
use crate::error::ProcessingError;
use crate::models::date::{compact_date, earlier_of, later_of, Date};
use crate::readers::temperature_reader::HEADER_LINES;
use crate::utils::text::{
    append_decimal,
    chars_of,
    contains,
    contains_spec,
    decimal_repr,
    ends_with,
    ends_with_spec,
    equals_str,
    find,
    find_spec,
    is_alphabetic_ascii,
    is_alphabetic_char,
    is_blank,
    lemma_find_in_range,
    lines,
    lines_spec,
    parse_unsigned,
    parse_unsigned_spec,
    seq_equal,
    slice_of,
    split_trimmed,
    starts_with,
    starts_with_spec,
    string_of,
    strip_zeros,
    strip_zeros_spec,
    trim,
    trim_spec,
    trimmed_fields,
};

verus! {

/// How many data files are looked at for the span of days, and how many of
/// the dated lines of each.
pub const MAX_SAMPLE_FILES: usize = 5;

pub const MAX_SAMPLE_LINES: usize = 100;

/// What an archive holds.
#[derive(Debug, Clone)]
pub struct ArchiveMetadata {
    pub country: String,
    /// The metrics of the data files, in the order in which they first occur.
    pub metrics: Vec<WeatherMetric>,
    pub station_count: usize,
    /// The first and the last day found in a sample of the data files.
    pub date_range: Option<(Date, Date)>,
    /// The number of data files of each metric, in the order of `metrics`.
    pub file_counts: Vec<usize>,
    pub total_files: usize,
}

/// The metadata of an archive as plain values.
pub struct ArchiveMetadataView {
    pub country: Seq<char>,
    pub metrics: Seq<WeatherMetric>,
    pub station_count: nat,
    pub date_range: Option<(Date, Date)>,
    pub file_counts: Seq<usize>,
    pub total_files: nat,
}

impl View for ArchiveMetadata {
    type V = ArchiveMetadataView;

    open spec fn view(&self) -> ArchiveMetadataView {
        ArchiveMetadataView {
            country: self.country@,
            metrics: self.metrics@,
            station_count: self.station_count as nat,
            date_range: self.date_range,
            file_counts: self.file_counts@,
            total_files: self.total_files as nat,
        }
    }
}

/// Name and text of an archive's file.
pub struct EntryView {
    pub name: Seq<char>,
    pub content: Seq<char>,
}

impl View for ArchiveEntry {
    type V = EntryView;

    open spec fn view(&self) -> EntryView {
        EntryView { name: self.name@, content: self.content@ }
    }
}

pub open spec fn entry_views(entries: Seq<ArchiveEntry>) -> Seq<EntryView> {
    entries.map_values(|e: ArchiveEntry| e@)
}

/// The metric of a data file named `{PREFIX}_STAID{number}.txt`: the name
/// ends in `.txt` and what stands before the first `_STAID` is the prefix of
/// a metric.
pub open spec fn metric_of_file_name(name: Seq<char>) -> Option<WeatherMetric> {
    if !ends_with_spec(name, ".txt"@) {
        None
    } else {
        let stem = name.take(name.len() - 4);
        let at = find_spec(stem, "_STAID"@);
        if at < 0 {
            None
        } else {
            metric_of_prefix(stem.take(at))
        }
    }
}

/// The station number of a data file's name: what stands between the first
/// `STAID` and the first full stop after it is, without its leading zeros, a
/// number.
pub open spec fn station_of_file_name(name: Seq<char>) -> Option<u32> {
    let at = find_spec(name, "STAID"@);
    if at < 0 {
        None
    } else {
        let after = name.skip(at + 5);
        let dot = find_spec(after, "."@);
        if dot < 0 {
            None
        } else {
            match parse_unsigned_spec(strip_zeros_spec(after.take(dot)), u32::MAX as nat) {
                Some(n) => Some(n as u32),
                None => None,
            }
        }
    }
}

/// A directory or one of the files that describe the archive.
pub open spec fn is_skipped_entry(name: Seq<char>) -> bool {
    ends_with_spec(name, "/"@) || name == "stations.txt"@ || name == "elements.txt"@ || name
        == "metadata.txt"@ || name == "sources.txt"@
}

/// The metric of an entry that counts as a data file.
pub open spec fn data_metric(name: Seq<char>) -> Option<WeatherMetric> {
    if is_skipped_entry(name) {
        None
    } else {
        metric_of_file_name(name)
    }
}

/// The metrics of the data files among the first `count` names, in the order
/// in which they first occur.
pub open spec fn metrics_seen(names: Seq<Seq<char>>, count: int) -> Seq<WeatherMetric>
    decreases count,
{
    if count <= 0 {
        Seq::empty()
    } else {
        let before = metrics_seen(names, count - 1);
        match data_metric(names[count - 1]) {
            Some(m) => if before.contains(m) {
                before
            } else {
                before.push(m)
            },
            None => before,
        }
    }
}

/// How many of the first `count` names are data files of the metric.
pub open spec fn files_of_metric(names: Seq<Seq<char>>, metric: WeatherMetric, count: int) -> nat
    decreases count,
{
    if count <= 0 {
        0
    } else {
        files_of_metric(names, metric, count - 1) + if data_metric(names[count - 1]) == Some(
            metric,
        ) {
            1nat
        } else {
            0nat
        }
    }
}

/// The stations that the data files among the first `count` names belong to.
pub open spec fn stations_seen(names: Seq<Seq<char>>, count: int) -> Set<u32>
    decreases count,
{
    if count <= 0 {
        Set::empty()
    } else {
        let before = stations_seen(names, count - 1);
        if data_metric(names[count - 1]) is Some {
            match station_of_file_name(names[count - 1]) {
                Some(id) => before.insert(id),
                None => before,
            }
        } else {
            before
        }
    }
}

pub open spec fn names_of(entries: Seq<EntryView>) -> Seq<Seq<char>> {
    entries.map_values(|e: EntryView| e.name)
}

/// A line of a catalog that is a header or part of the banner: a blank line,
/// a line that begins with the heading of the first column or with a dash,
/// and a line that holds a phrase of the provider's banner.
pub open spec fn is_banner_line(line: Seq<char>, heading: Seq<char>) -> bool {
    let t = trim_spec(line);
    t.len() == 0 || starts_with_spec(t, heading) || starts_with_spec(t, "-"@) || contains_spec(
        t,
        "EUROPEAN"@,
    ) || contains_spec(t, "Klein Tank"@)
}

/// The country code of a line of the station catalog: its third field, if
/// that has two characters.
pub open spec fn country_of_line(line: Seq<char>) -> Option<Seq<char>> {
    let fields = trimmed_fields(line, ',');
    if !is_banner_line(line, "STAID"@) && fields.len() >= 3 && fields[2].len() == 2 {
        Some(fields[2])
    } else {
        None
    }
}

/// The country codes of the first `count` lines, each once, in the order in
/// which they first occur.
pub open spec fn countries_of_lines(lines: Seq<Seq<char>>, count: int) -> Seq<Seq<char>>
    decreases count,
{
    if count <= 0 {
        Seq::empty()
    } else {
        let before = countries_of_lines(lines, count - 1);
        match country_of_line(lines[count - 1]) {
            Some(c) => if before.contains(c) {
                before
            } else {
                before.push(c)
            },
            None => before,
        }
    }
}

/// The country codes of a station catalog.
pub open spec fn countries_of_text(text: Seq<char>) -> Seq<Seq<char>> {
    countries_of_lines(lines_spec(text), lines_spec(text).len() as int)
}

/// The letters that a text begins with.
pub open spec fn leading_letters(s: Seq<char>) -> Seq<char>
    decreases s.len(),
{
    if s.len() > 0 && is_alphabetic_ascii(s[0]) {
        seq![s[0]] + leading_letters(s.drop_first())
    } else {
        Seq::empty()
    }
}

/// The metric of a line of the element catalog: the one whose prefix the
/// letters at the head of the first field are.
pub open spec fn element_of_line(line: Seq<char>) -> Option<WeatherMetric> {
    if is_banner_line(line, "ELEID"@) {
        None
    } else {
        metric_of_prefix(leading_letters(trimmed_fields(line, ',')[0]))
    }
}

/// The metrics of the first `count` lines of the element catalog, each once.
pub open spec fn elements_of_lines(lines: Seq<Seq<char>>, count: int) -> Seq<WeatherMetric>
    decreases count,
{
    if count <= 0 {
        Seq::empty()
    } else {
        let before = elements_of_lines(lines, count - 1);
        match element_of_line(lines[count - 1]) {
            Some(m) => if before.contains(m) {
                before
            } else {
                before.push(m)
            },
            None => before,
        }
    }
}

pub open spec fn elements_of_text(text: Seq<char>) -> Seq<WeatherMetric> {
    elements_of_lines(lines_spec(text), lines_spec(text).len() as int)
}

/// A span of days and how many dated lines went into it.
pub struct SpanSoFar {
    pub seen: nat,
    pub span: Option<(Date, Date)>,
}

pub open spec fn widened(span: Option<(Date, Date)>, d: Date) -> Option<(Date, Date)> {
    match span {
        Some(s) => Some((earlier_of(s.0, d), later_of(s.1, d))),
        None => Some((d, d)),
    }
}

pub open spec fn joined(a: Option<(Date, Date)>, b: (Date, Date)) -> Option<(Date, Date)> {
    match a {
        Some(s) => Some((earlier_of(s.0, b.0), later_of(s.1, b.1))),
        None => Some(b),
    }
}

/// The day of a line of a data file: its second field, read as `YYYYMMDD`.
pub open spec fn date_of_line(line: Seq<char>) -> Option<Date> {
    let fields = trimmed_fields(line, ',');
    if fields.len() >= 2 {
        compact_date(fields[1])
    } else {
        None
    }
}

/// The span of the days of the first `count` lines of a data file: the first
/// twenty lines and blank lines aside, up to a hundred lines with a day count.
pub open spec fn span_of_lines(lines: Seq<Seq<char>>, count: int) -> SpanSoFar
    decreases count,
{
    if count <= 0 {
        SpanSoFar { seen: 0, span: None }
    } else {
        let before = span_of_lines(lines, count - 1);
        let line = lines[count - 1];
        if before.seen >= MAX_SAMPLE_LINES || trim_spec(line).len() == 0 || count <= HEADER_LINES {
            before
        } else {
            match date_of_line(line) {
                Some(d) => SpanSoFar { seen: before.seen + 1, span: widened(before.span, d) },
                None => before,
            }
        }
    }
}

pub open spec fn span_of_text(text: Seq<char>) -> Option<(Date, Date)> {
    span_of_lines(lines_spec(text), lines_spec(text).len() as int).span
}

/// The span of days over the first `count` entries: of the data files that
/// give a span, the first five count.
pub open spec fn span_of_entries(entries: Seq<EntryView>, count: int) -> SpanSoFar
    decreases count,
{
    if count <= 0 {
        SpanSoFar { seen: 0, span: None }
    } else {
        let before = span_of_entries(entries, count - 1);
        let e = entries[count - 1];
        if before.seen >= MAX_SAMPLE_FILES || metric_of_file_name(e.name).is_none() {
            before
        } else {
            match span_of_text(e.content) {
                Some(s) => SpanSoFar { seen: before.seen + 1, span: joined(before.span, s) },
                None => before,
            }
        }
    }
}

/// The text of the first entry with the given name.
pub open spec fn content_of(entries: Seq<EntryView>, name: Seq<char>) -> Option<Seq<char>>
    decreases entries.len(),
{
    if entries.len() == 0 {
        None
    } else if entries[0].name == name {
        Some(entries[0].content)
    } else {
        content_of(entries.drop_first(), name)
    }
}

/// What the inspection of an archive gives: its metadata, or nothing where
/// the archive has no data file, no station catalog or no country code.
pub open spec fn metadata_of(entries: Seq<EntryView>) -> Option<ArchiveMetadataView> {
    let names = names_of(entries);
    let metrics = metrics_seen(names, names.len() as int);
    if metrics.len() == 0 {
        None
    } else {
        match content_of(entries, "stations.txt"@) {
            None => None,
            Some(catalog) => {
                let countries = countries_of_text(catalog);
                if countries.len() == 0 {
                    None
                } else {
                    Some(
                        ArchiveMetadataView {
                            country: countries[0],
                            metrics,
                            station_count: stations_seen(names, names.len() as int).len(),
                            date_range: span_of_entries(entries, entries.len() as int).span,
                            file_counts: Seq::new(
                                metrics.len(),
                                |i: int| files_of_metric(names, metrics[i], names.len() as int) as usize,
                            ),
                            total_files: entries.len(),
                        },
                    )
                }
            },
        }
    }
}

/// One line for each of the first `count` metrics that has a number of
/// files: its name, that number and its unit.
pub open spec fn coverage_lines(metrics: Seq<WeatherMetric>, counts: Seq<usize>, count: int) -> Seq<
    char,
>
    decreases count,
{
    if count <= 0 {
        Seq::empty()
    } else if count > counts.len() {
        coverage_lines(metrics, counts, count - 1)
    } else {
        coverage_lines(metrics, counts, count - 1) + "    "@ + metrics[count - 1].label() + ": "@
            + decimal_repr(counts[count - 1] as nat) + " stations ("@
            + metrics[count - 1].unit_text() + ")\n"@
    }
}

/// The first place of a metric among the first `count` metrics, or `count`.
pub open spec fn place_of_metric(metrics: Seq<WeatherMetric>, metric: WeatherMetric) -> int
    decreases metrics.len(),
{
    if metrics.len() == 0 || metrics[0] == metric {
        0
    } else {
        1 + place_of_metric(metrics.drop_first(), metric)
    }
}

/// The number of data files of a metric: the number at the first place of
/// the metric, if the archive has the metric and a number for it.
pub open spec fn file_count_of(m: ArchiveMetadataView, metric: WeatherMetric) -> Option<usize> {
    let at = place_of_metric(m.metrics, metric);
    if at < m.metrics.len() && at < m.file_counts.len() {
        Some(m.file_counts[at])
    } else {
        None
    }
}

proof fn lemma_first_place(metrics: Seq<WeatherMetric>, metric: WeatherMetric, i: int)
    requires
        0 <= i < metrics.len(),
        metrics[i] == metric,
        forall|j: int| 0 <= j < i ==> metrics[j] != metric,
    ensures
        place_of_metric(metrics, metric) == i,
    decreases i,
{
    if i > 0 {
        lemma_first_place(metrics.drop_first(), metric, i - 1);
    }
}

proof fn lemma_no_place(metrics: Seq<WeatherMetric>, metric: WeatherMetric)
    requires
        !metrics.contains(metric),
    ensures
        place_of_metric(metrics, metric) == metrics.len(),
    decreases metrics.len(),
{
    if metrics.len() > 0 {
        assert(metrics[0] != metric);
        assert forall|j: int| 0 <= j < metrics.drop_first().len() implies metrics.drop_first()[j]
            != metric by {
            assert(metrics[j + 1] != metric);
        }
        lemma_no_place(metrics.drop_first(), metric);
    }
}

/// The summary of the metadata of an archive.
pub open spec fn metadata_text(m: ArchiveMetadataView) -> Seq<char> {
    "Archive Metadata:\n  Country: "@ + m.country + "\n  Total Stations: "@ + decimal_repr(
        m.station_count,
    ) + "\n  Total Files: "@ + decimal_repr(m.total_files) + "\n"@ + (match m.date_range {
        Some(range) => "  Date Range: "@ + range.0.text() + " to "@ + range.1.text() + "\n"@,
        None => Seq::<char>::empty(),
    }) + "  Available Metrics:\n"@ + coverage_lines(
        m.metrics,
        m.file_counts,
        m.metrics.len() as int,
    )
}

impl ArchiveMetadata {
    /// The metadata as a few lines of text.
    pub fn display_summary(&self) -> (s: String)
        ensures
            s@ == metadata_text(self@),
    {
        let mut s = String::from_str("Archive Metadata:\n  Country: ");
        s.append(self.country.as_str());
        s.append("\n  Total Stations: ");
        append_decimal(&mut s, self.station_count as u64);
        s.append("\n  Total Files: ");
        append_decimal(&mut s, self.total_files as u64);
        s.append("\n");
        match self.date_range {
            Some(range) => {
                s.append("  Date Range: ");
                s.append(range.0.to_text().as_str());
                s.append(" to ");
                s.append(range.1.to_text().as_str());
                s.append("\n");
            },
            None => {},
        }
        s.append("  Available Metrics:\n");
        let ghost head = s@;
        let mut k: usize = 0;
        assert(head + Seq::<char>::empty() =~= head);
        while k < self.metrics.len()
            invariant
                k <= self.metrics.len(),
                s@ == head + coverage_lines(self.metrics@, self.file_counts@, k as int),
            decreases self.metrics.len() - k,
        {
            if k >= self.file_counts.len() {
                k += 1;
                continue;
            }
            s.append("    ");
            s.append(self.metrics[k].display_name());
            s.append(": ");
            append_decimal(&mut s, self.file_counts[k] as u64);
            s.append(" stations (");
            s.append(self.metrics[k].units());
            s.append(")\n");
            assert(s@ =~= head + coverage_lines(self.metrics@, self.file_counts@, k as int + 1));
            k += 1;
        }
        assert(s@ =~= metadata_text(self@));
        s
    }

    pub fn has_temperature_data(&self) -> (r: bool)
        ensures
            r == exists|i: int| 0 <= i < self.metrics@.len() && self.metrics@[i] is Temperature,
    {
        let mut i: usize = 0;
        while i < self.metrics.len()
            invariant
                i <= self.metrics.len(),
                forall|j: int| 0 <= j < i ==> !(self.metrics@[j] is Temperature),
            decreases self.metrics.len() - i,
        {
            if self.metrics[i].is_temperature() {
                return true;
            }
            i += 1;
        }
        false
    }

    /// Whether minimum, maximum and average temperature are all there.
    pub fn has_complete_temperature(&self) -> (r: bool)
        ensures
            r == (self.metrics@.contains(
                WeatherMetric::Temperature(crate::archive::TemperatureType::Minimum),
            ) && self.metrics@.contains(
                WeatherMetric::Temperature(crate::archive::TemperatureType::Maximum),
            ) && self.metrics@.contains(
                WeatherMetric::Temperature(crate::archive::TemperatureType::Average),
            )),
    {
        metric_index(
            &self.metrics,
            WeatherMetric::Temperature(crate::archive::TemperatureType::Minimum),
        ).is_some() && metric_index(
            &self.metrics,
            WeatherMetric::Temperature(crate::archive::TemperatureType::Maximum),
        ).is_some() && metric_index(
            &self.metrics,
            WeatherMetric::Temperature(crate::archive::TemperatureType::Average),
        ).is_some()
    }

    /// The number of data files of a metric, if the archive has the metric.
    pub fn file_count(&self, metric: WeatherMetric) -> (r: Option<usize>)
        ensures
            r == file_count_of(self@, metric),
    {
        match metric_index(&self.metrics, metric) {
            Some(i) => {
                proof {
                    lemma_first_place(self.metrics@, metric, i as int);
                }
                if i < self.file_counts.len() {
                    Some(self.file_counts[i])
                } else {
                    None
                }
            },
            None => {
                proof {
                    lemma_no_place(self.metrics@, metric);
                }
                None
            },
        }
    }

    /// The metrics of the archive that the element catalog does not name.
    pub fn unlisted_metrics(&self, elements_catalog: &str) -> (r: Vec<WeatherMetric>)
        ensures
            r@ == self.metrics@.filter(
                |m: WeatherMetric| !elements_of_text(elements_catalog@).contains(m),
            ),
    {
        let listed = ArchiveInspector::validate_with_elements(elements_catalog);
        let ghost keep = |m: WeatherMetric| !elements_of_text(elements_catalog@).contains(m);
        let mut r: Vec<WeatherMetric> = Vec::new();
        let mut i: usize = 0;
        assert(self.metrics@.take(0) =~= Seq::<WeatherMetric>::empty());
        proof {
            reveal(Seq::filter);
        }
        while i < self.metrics.len()
            invariant
                i <= self.metrics.len(),
                listed@ == elements_of_text(elements_catalog@),
                keep == |m: WeatherMetric| !elements_of_text(elements_catalog@).contains(m),
                r@ == self.metrics@.take(i as int).filter(keep),
            decreases self.metrics.len() - i,
        {
            proof {
                reveal(Seq::filter);
                let next = self.metrics@.take(i as int + 1);
                assert(next.drop_last() =~= self.metrics@.take(i as int));
            }
            if metric_index(&listed, self.metrics[i]).is_none() {
                r.push(self.metrics[i]);
            }
            i += 1;
        }
        assert(self.metrics@.take(self.metrics.len() as int) =~= self.metrics@);
        r
    }
}

/// The first place of a metric in a list.
pub fn metric_index(metrics: &Vec<WeatherMetric>, metric: WeatherMetric) -> (r: Option<usize>)
    ensures
        match r {
            Some(i) => i < metrics@.len() && metrics@[i as int] == metric && forall|j: int|
                0 <= j < i ==> metrics@[j] != metric,
            None => !metrics@.contains(metric),
        },
{
    let mut i: usize = 0;
    while i < metrics.len()
        invariant
            i <= metrics.len(),
            forall|j: int| 0 <= j < i ==> metrics@[j] != metric,
        decreases metrics.len() - i,
    {
        if metrics[i] == metric {
            return Some(i);
        }
        i += 1;
    }
    None
}

/// A metric that was not seen has no file.
proof fn lemma_unseen_has_no_file(names: Seq<Seq<char>>, metric: WeatherMetric, count: int)
    requires
        !metrics_seen(names, count).contains(metric),
    ensures
        files_of_metric(names, metric, count) == 0,
    decreases count,
{
    if count > 0 {
        let before = metrics_seen(names, count - 1);
        let now = metrics_seen(names, count);
        assert forall|j: int| 0 <= j < before.len() implies now[j] == before[j] by {}
        if before.contains(metric) {
            let j = choose|j: int| 0 <= j < before.len() && before[j] == metric;
            assert(now[j] == metric);
        }
        if data_metric(names[count - 1]) == Some(metric) {
            if !before.contains(metric) {
                assert(now.last() == metric);
            }
        }
        lemma_unseen_has_no_file(names, metric, count - 1);
    }
}

proof fn lemma_files_bounded(names: Seq<Seq<char>>, metric: WeatherMetric, count: int)
    requires
        0 <= count,
    ensures
        files_of_metric(names, metric, count) <= count,
    decreases count,
{
    if count > 0 {
        lemma_files_bounded(names, metric, count - 1);
    }
}

fn is_skipped(name: &Vec<char>) -> (r: bool)
    ensures
        r == is_skipped_entry(name@),
{
    ends_with(name, "/") || equals_str(name, "stations.txt") || equals_str(name, "elements.txt")
        || equals_str(name, "metadata.txt") || equals_str(name, "sources.txt")
}

/// The metric of a data file's name.
pub fn metric_of_name(name: &Vec<char>) -> (r: Option<WeatherMetric>)
    ensures
        r == metric_of_file_name(name@),
{
    if !ends_with(name, ".txt") {
        return None;
    }
    proof {
        reveal_strlit(".txt");
    }
    let stem = slice_of(name, 0, name.len() - 4);
    assert(stem@ =~= name@.take(name.len() - 4));
    let pattern = chars_of("_STAID");
    match find(&stem, &pattern) {
        Some(at) => {
            proof {
                lemma_find_in_range(stem@, pattern@);
            }
            let prefix = slice_of(&stem, 0, at);
            assert(prefix@ =~= stem@.take(at as int));
            metric_of_prefix_chars(&prefix)
        },
        None => None,
    }
}

/// The station number of a data file's name.
pub fn station_of_name(name: &Vec<char>) -> (r: Option<u32>)
    ensures
        r == station_of_file_name(name@),
{
    let pattern = chars_of("STAID");
    proof {
        reveal_strlit("STAID");
        assert(pattern@.len() == 5);
    }
    match find(name, &pattern) {
        Some(at) => {
            proof {
                lemma_find_in_range(name@, pattern@);
            }
            let end = name.len();
            let after = slice_of(name, at + 5, end);
            assert(after@ =~= name@.skip(at + 5));
            let stop = chars_of(".");
            match find(&after, &stop) {
                Some(dot) => {
                    proof {
                        lemma_find_in_range(after@, stop@);
                    }
                    let digits = slice_of(&after, 0, dot);
                    assert(digits@ =~= after@.take(dot as int));
                    let digits = strip_zeros(&digits);
                    match parse_unsigned(&digits, u32::MAX as u64) {
                        Some(n) => Some(n as u32),
                        None => None,
                    }
                },
                None => None,
            }
        },
        None => None,
    }
}

fn is_banner(line: &Vec<char>, heading: &str) -> (r: bool)
    ensures
        r == is_banner_line(line@, heading@),
{
    let t = trim(line);
    t.len() == 0 || starts_with(&t, heading) || starts_with(&t, "-") || contains(&t, "EUROPEAN")
        || contains(&t, "Klein Tank")
}

fn position_of_text(list: &Vec<Vec<char>>, item: &Vec<char>) -> (r: bool)
    ensures
        r == list@.map_values(|v: Vec<char>| v@).contains(item@),
{
    let ghost views = list@.map_values(|v: Vec<char>| v@);
    let mut i: usize = 0;
    while i < list.len()
        invariant
            i <= list.len(),
            views == list@.map_values(|v: Vec<char>| v@),
            forall|j: int| 0 <= j < i ==> views[j] != item@,
        decreases list.len() - i,
    {
        assert(views[i as int] == list@[i as int]@);
        if seq_equal(&list[i], item) {
            return true;
        }
        i += 1;
    }
    false
}

/// The inspection of archives.
pub struct ArchiveInspector;

/// What a scan of the names of an archive finds.
pub struct ScanResult {
    pub metrics: Vec<WeatherMetric>,
    pub file_counts: Vec<usize>,
    pub station_ids: HashSet<u32>,
}

impl ArchiveInspector {
    /// The metadata of an archive, given as the list of its files.
    pub fn inspect_zip(entries: &Vec<ArchiveEntry>) -> (r: Result<ArchiveMetadata, ProcessingError>)
        ensures
            match r {
                Ok(meta) => metadata_of(entry_views(entries@)) == Some(meta@),
                Err(e) => metadata_of(entry_views(entries@)).is_none() && e is InvalidFormat,
            },
    {
        let ghost views = entry_views(entries@);
        let scan = Self::scan_data_files(entries);
        if scan.metrics.len() == 0 {
            return Err(
                ProcessingError::InvalidFormat(
                    String::from_str("No recognized weather data files found in archive"),
                ),
            );
        }
        let country = match Self::extract_country(entries) {
            Ok(c) => c,
            Err(e) => {
                return Err(e);
            },
        };
        let date_range = Self::estimate_date_range(entries);
        let meta = ArchiveMetadata {
            country,
            metrics: scan.metrics,
            station_count: scan.station_ids.len(),
            date_range,
            file_counts: scan.file_counts,
            total_files: entries.len(),
        };
        proof {
            broadcast use vstd::std_specs::hash::group_hash_axioms;

            let expected = metadata_of(views)->0;
            assert(meta@.file_counts =~= expected.file_counts);
        }
        Ok(meta)
    }

    /// The metrics, the number of files of each, and the stations of the data
    /// files of an archive.
    pub fn scan_data_files(entries: &Vec<ArchiveEntry>) -> (r: ScanResult)
        ensures
            ({
                let names = names_of(entry_views(entries@));
                &&& r.metrics@ == metrics_seen(names, names.len() as int)
                &&& r.file_counts@.len() == r.metrics@.len()
                &&& forall|j: int|
                    0 <= j < r.metrics@.len() ==> r.file_counts@[j] == files_of_metric(
                        names,
                        r.metrics@[j],
                        names.len() as int,
                    )
                &&& r.station_ids@ == stations_seen(names, names.len() as int)
            }),
    {
        let ghost names = names_of(entry_views(entries@));
        let mut metrics: Vec<WeatherMetric> = Vec::new();
        let mut file_counts: Vec<usize> = Vec::new();
        let mut station_ids: HashSet<u32> = HashSet::new();
        let mut i: usize = 0;
        while i < entries.len()
            invariant
                i <= entries.len(),
                names == names_of(entry_views(entries@)),
                metrics@ == metrics_seen(names, i as int),
                metrics@.no_duplicates(),
                file_counts@.len() == metrics@.len(),
                forall|j: int|
                    0 <= j < metrics@.len() ==> file_counts@[j] == files_of_metric(
                        names,
                        metrics@[j],
                        i as int,
                    ),
                station_ids@ == stations_seen(names, i as int),
            decreases entries.len() - i,
        {
            let name = chars_of(entries[i].name.as_str());
            assert(names[i as int] == name@);
            let metric = if is_skipped(&name) {
                None
            } else {
                metric_of_name(&name)
            };
            match metric {
                Some(m) => {
                    proof {
                        lemma_files_bounded(names, m, i as int);
                    }
                    match metric_index(&metrics, m) {
                        Some(k) => {
                            let n = file_counts[k];
                            file_counts.set(k, n + 1);
                        },
                        None => {
                            proof {
                                lemma_unseen_has_no_file(names, m, i as int);
                            }
                            metrics.push(m);
                            file_counts.push(1);
                        },
                    }
                    match station_of_name(&name) {
                        Some(id) => {
                            station_ids.insert(id);
                        },
                        None => {},
                    }
                },
                None => {},
            }
            i += 1;
        }
        ScanResult { metrics, file_counts, station_ids }
    }

    /// The metric of a data file's name.
    pub fn parse_data_file_name(file_name: &str) -> (r: Option<WeatherMetric>)
        ensures
            r == metric_of_file_name(file_name@),
    {
        let name = chars_of(file_name);
        metric_of_name(&name)
    }

    /// The station number of a data file's name.
    pub fn extract_station_id_from_filename(file_name: &str) -> (r: Option<u32>)
        ensures
            r == station_of_file_name(file_name@),
    {
        let name = chars_of(file_name);
        station_of_name(&name)
    }

    /// The country codes of a station catalog, each once, in the order in
    /// which they first occur.
    pub fn country_codes(catalog: &str) -> (r: Vec<Vec<char>>)
        ensures
            r@.map_values(|c: Vec<char>| c@) == countries_of_text(catalog@),
    {
        let chars = chars_of(catalog);
        let all = lines(&chars);
        let ghost slines = lines_spec(catalog@);
        let mut found: Vec<Vec<char>> = Vec::new();
        let mut i: usize = 0;
        assert(found@.map_values(|c: Vec<char>| c@) =~= Seq::<Seq<char>>::empty());
        while i < all.len()
            invariant
                i <= all.len(),
                slines == all@.map_values(|l: Vec<char>| l@),
                found@.map_values(|c: Vec<char>| c@) == countries_of_lines(slines, i as int),
            decreases all.len() - i,
        {
            let line = &all[i];
            assert(slines[i as int] == line@);
            i += 1;
            if is_banner(line, "STAID") {
                continue;
            }
            let mut fields = split_trimmed(line, ',');
            let ghost sfields = trimmed_fields(line@, ',');
            if fields.len() >= 3 {
                assert(sfields[2] == fields@[2]@);
                if fields[2].len() == 2 {
                    if !position_of_text(&found, &fields[2]) {
                        let code = slice_of(&fields[2], 0, 2);
                        assert(code@ =~= sfields[2]);
                        let ghost before = found@.map_values(|c: Vec<char>| c@);
                        found.push(code);
                        assert(found@.map_values(|c: Vec<char>| c@) =~= before.push(sfields[2]));
                    }
                }
            }
        }
        found
    }

    /// The country of an archive: the first country code of its station catalog.
    pub fn extract_country(entries: &Vec<ArchiveEntry>) -> (r: Result<String, ProcessingError>)
        ensures
            match content_of(entry_views(entries@), "stations.txt"@) {
                Some(catalog) => if countries_of_text(catalog).len() > 0 {
                    r matches Ok(c) && c@ == countries_of_text(catalog)[0]
                } else {
                    r matches Err(e) && e is InvalidFormat
                },
                None => r matches Err(e) && e is InvalidFormat,
            },
    {
        let catalog = match find_entry(entries, "stations.txt") {
            Some(i) => &entries[i].content,
            None => {
                return Err(
                    ProcessingError::InvalidFormat(
                        String::from_str("stations.txt not found in archive"),
                    ),
                );
            },
        };
        let codes = Self::country_codes(catalog.as_str());
        if codes.len() == 0 {
            return Err(
                ProcessingError::InvalidFormat(
                    String::from_str("No valid country codes found in stations.txt"),
                ),
            );
        }
        assert(codes@.map_values(|c: Vec<char>| c@)[0] == codes@[0]@);
        Ok(string_of(&codes[0]))
    }

    /// The metrics that the element catalog names, each once.
    pub fn validate_with_elements(catalog: &str) -> (r: Vec<WeatherMetric>)
        ensures
            r@ == elements_of_text(catalog@),
    {
        let chars = chars_of(catalog);
        let all = lines(&chars);
        let ghost slines = lines_spec(catalog@);
        let mut found: Vec<WeatherMetric> = Vec::new();
        let mut i: usize = 0;
        while i < all.len()
            invariant
                i <= all.len(),
                slines == all@.map_values(|l: Vec<char>| l@),
                found@ == elements_of_lines(slines, i as int),
            decreases all.len() - i,
        {
            let line = &all[i];
            assert(slines[i as int] == line@);
            i += 1;
            if is_banner(line, "ELEID") {
                continue;
            }
            let fields = split_trimmed(line, ',');
            assert(trimmed_fields(line@, ',')[0] == fields@[0]@);
            let letters = letters_at_head(&fields[0]);
            match metric_of_prefix_chars(&letters) {
                Some(m) => {
                    if metric_index(&found, m).is_none() {
                        found.push(m);
                    }
                },
                None => {},
            }
        }
        found
    }

    /// The first and the last day found in a sample of the data files.
    pub fn estimate_date_range(entries: &Vec<ArchiveEntry>) -> (r: Option<(Date, Date)>)
        ensures
            r == span_of_entries(entry_views(entries@), entries@.len() as int).span,
    {
        let ghost views = entry_views(entries@);
        let mut span: Option<(Date, Date)> = None;
        let mut sampled: usize = 0;
        let mut i: usize = 0;
        while i < entries.len()
            invariant
                i <= entries.len(),
                views == entry_views(entries@),
                sampled <= MAX_SAMPLE_FILES,
                span_of_entries(views, i as int) == (SpanSoFar { seen: sampled as nat, span }),
            decreases entries.len() - i,
        {
            let entry = &entries[i];
            assert(views[i as int] == entry@);
            i += 1;
            if sampled >= MAX_SAMPLE_FILES {
                continue;
            }
            if Self::parse_data_file_name(entry.name.as_str()).is_none() {
                continue;
            }
            match Self::extract_date_range_from_file(entry.content.as_str()) {
                Some(s) => {
                    span = match span {
                        Some(have) => Some((have.0.earlier(s.0), have.1.later(s.1))),
                        None => Some(s),
                    };
                    sampled += 1;
                },
                None => {},
            }
        }
        span
    }

    /// The first and the last day among the sampled lines of a data file.
    pub fn extract_date_range_from_file(content: &str) -> (r: Option<(Date, Date)>)
        ensures
            r == span_of_text(content@),
    {
        let chars = chars_of(content);
        let all = lines(&chars);
        let ghost slines = lines_spec(content@);
        let mut span: Option<(Date, Date)> = None;
        let mut seen: usize = 0;
        let mut i: usize = 0;
        while i < all.len()
            invariant
                i <= all.len(),
                slines == all@.map_values(|l: Vec<char>| l@),
                seen <= MAX_SAMPLE_LINES,
                span_of_lines(slines, i as int) == (SpanSoFar { seen: seen as nat, span }),
            decreases all.len() - i,
        {
            let line = &all[i];
            assert(slines[i as int] == line@);
            i += 1;
            if seen >= MAX_SAMPLE_LINES || is_blank(line) || i <= HEADER_LINES {
                continue;
            }
            let fields = split_trimmed(line, ',');
            if fields.len() >= 2 {
                assert(trimmed_fields(line@, ',')[1] == fields@[1]@);
                match Date::parse_compact(string_of(&fields[1]).as_str()) {
                    Some(d) => {
                        span = match span {
                            Some(have) => Some((have.0.earlier(d), have.1.later(d))),
                            None => Some((d, d)),
                        };
                        seen += 1;
                    },
                    None => {},
                }
            }
        }
        span
    }
}

fn letters_at_head(s: &Vec<char>) -> (r: Vec<char>)
    ensures
        r@ == leading_letters(s@),
{
    let mut r: Vec<char> = Vec::new();
    let mut i: usize = 0;
    assert(s@.subrange(0, s.len() as int) =~= s@);
    while i < s.len() && is_alphabetic_char(s[i])
        invariant
            i <= s.len(),
            leading_letters(s@) == r@ + leading_letters(s@.subrange(i as int, s.len() as int)),
        decreases s.len() - i,
    {
        proof {
            let cur = s@.subrange(i as int, s.len() as int);
            assert(cur.drop_first() =~= s@.subrange(i as int + 1, s.len() as int));
            assert(r@.push(s@[i as int]) + leading_letters(cur.drop_first()) =~= r@ + (seq![
                cur[0],
            ] + leading_letters(cur.drop_first())));
        }
        r.push(s[i]);
        i += 1;
    }
    assert(r@ + Seq::<char>::empty() =~= r@);
    r
}

/// The place of the first entry with the given name.
pub fn find_entry(entries: &Vec<ArchiveEntry>, name: &str) -> (r: Option<usize>)
    ensures
        match r {
            Some(i) => i < entries@.len() && content_of(entry_views(entries@), name@) == Some(
                entries@[i as int].content@,
            ),
            None => content_of(entry_views(entries@), name@).is_none(),
        },
{
    let ghost views = entry_views(entries@);
    let wanted = chars_of(name);
    let mut i: usize = 0;
    assert(views.skip(0) =~= views);
    while i < entries.len()
        invariant
            i <= entries.len(),
            views == entry_views(entries@),
            wanted@ == name@,
            content_of(views, name@) == content_of(views.skip(i as int), name@),
        decreases entries.len() - i,
    {
        let have = chars_of(entries[i].name.as_str());
        proof {
            let rest = views.skip(i as int);
            assert(rest[0] == entries@[i as int]@);
            assert(rest.drop_first() =~= views.skip(i as int + 1));
        }
        if seq_equal(&have, &wanted) {
            return Some(i);
        }
        i += 1;
    }
    None
}

} // verus!
