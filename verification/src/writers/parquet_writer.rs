//! The settings of the columnar writer, the columns of its table and the
//! batches in which records are handed to it.

use vstd::prelude::*;
use vstd::string::*;
use crate::error::ProcessingError;
use crate::models::consolidated::{ConsolidatedRecord, ConsolidatedView};
use crate::models::date::Date;
use crate::models::weather::{
    duplicate_text,
    lemma_validity_name_round_trip,
    text_view,
    validity_of_name,
    PhysicalValidity,
    WeatherRecord,
    WeatherRecordView,
};
use crate::processors::data_merger::consolidated_views;
use crate::processors::integrity_checker::record_views;
use crate::utils::coordinates::Coordinate;
use crate::utils::text::chars_of;

verus! {

/// How many rows go into a row group unless the caller says otherwise.
pub const DEFAULT_ROW_GROUP_SIZE: usize = 10_000;

/// How the row groups are compressed.
#[derive(Debug, Clone, Copy, PartialEq, Eq, Structural)]
pub enum Compression {
    Snappy,
    Gzip,
    Lz4,
    Zstd,
    Uncompressed,
}

/// What the rows of a table are.
#[derive(Debug, Clone, Copy, PartialEq, Eq, Structural)]
pub enum SchemaType {
    ConsolidatedRecord,
    WeatherRecord,
    Unknown,
}

/// What a column holds.
#[derive(Debug, Clone, Copy, PartialEq, Eq, Structural)]
pub enum ColumnKind {
    UInt32,
    Text,
    /// A calendar day.
    Day,
    Float64,
    Float32,
}

/// One column of a table.
#[derive(Debug, Clone, Copy)]
pub struct Column {
    pub name: &'static str,
    pub kind: ColumnKind,
    pub nullable: bool,
}

/// A column as plain values.
pub struct ColumnView {
    pub name: Seq<char>,
    pub kind: ColumnKind,
    pub nullable: bool,
}

impl View for Column {
    type V = ColumnView;

    open spec fn view(&self) -> ColumnView {
        ColumnView { name: self.name@, kind: self.kind, nullable: self.nullable }
    }
}

/// The small letter of a capital letter of the alphabet, any other character
/// as it is.
pub open spec fn small_of(c: char) -> char {
    if 'A' <= c <= 'Z' {
        ((c as u32 + 32) as u8) as char
    } else {
        c
    }
}

/// Whether `s`, written in small letters, is the text `small`.
pub open spec fn equals_in_small(s: Seq<char>, small: Seq<char>) -> bool {
    s.len() == small.len() && forall|i: int|
        0 <= i < s.len() ==> small_of(#[trigger] s[i]) == small[i]
}

/// The compression that a name stands for, in any case.
pub open spec fn compression_of(name: Seq<char>) -> Option<Compression> {
    if equals_in_small(name, "snappy"@) {
        Some(Compression::Snappy)
    } else if equals_in_small(name, "gzip"@) {
        Some(Compression::Gzip)
    } else if equals_in_small(name, "lz4"@) {
        Some(Compression::Lz4)
    } else if equals_in_small(name, "zstd"@) {
        Some(Compression::Zstd)
    } else if equals_in_small(name, "none"@) {
        Some(Compression::Uncompressed)
    } else {
        None
    }
}

/// What the rows of a table with so many columns are.
pub open spec fn schema_of_width(columns: nat) -> SchemaType {
    if columns == 9 {
        SchemaType::ConsolidatedRecord
    } else if columns == 13 || columns == 16 {
        SchemaType::WeatherRecord
    } else {
        SchemaType::Unknown
    }
}

/// The batches of `len` rows with at most `size` rows each, as pairs of first
/// row and row after the last: each batch but the last is full.
pub open spec fn batches_of(len: nat, size: nat) -> Seq<(usize, usize)>
    recommends
        size > 0,
{
    Seq::new(
        ((len + size - 1) / (size as int)) as nat,
        |i: int|
            (
                (i * size) as usize,
                (if (i + 1) * size < len {
                    (i + 1) * size
                } else {
                    len as int
                }) as usize,
            ),
    )
}

fn small(c: char) -> (r: char)
    ensures
        r == small_of(c),
{
    if 'A' <= c && c <= 'Z' {
        ((c as u32 + 32) as u8) as char
    } else {
        c
    }
}

fn equals_ignoring_case(s: &Vec<char>, lower: &str) -> (r: bool)
    ensures
        r == equals_in_small(s@, lower@),
{
    let want = chars_of(lower);
    if s.len() != want.len() {
        return false;
    }
    let mut i: usize = 0;
    while i < s.len()
        invariant
            i <= s.len(),
            s.len() == want.len(),
            want@ == lower@,
            forall|j: int| 0 <= j < i ==> small_of(#[trigger] s@[j]) == want@[j],
        decreases s.len() - i,
    {
        if small(s[i]) != want[i] {
            return false;
        }
        i += 1;
    }
    true
}

/// The columns of the table of unified records, in their order.
pub fn weather_columns() -> (columns: Vec<Column>)
    ensures
        columns@.len() == 16,
        columns@.map_values(|c: Column| c@) == seq![
            ColumnView { name: "station_id"@, kind: ColumnKind::UInt32, nullable: false },
            ColumnView { name: "station_name"@, kind: ColumnKind::Text, nullable: false },
            ColumnView { name: "date"@, kind: ColumnKind::Day, nullable: false },
            ColumnView { name: "latitude"@, kind: ColumnKind::Float64, nullable: false },
            ColumnView { name: "longitude"@, kind: ColumnKind::Float64, nullable: false },
            ColumnView { name: "temp_min"@, kind: ColumnKind::Float32, nullable: true },
            ColumnView { name: "temp_max"@, kind: ColumnKind::Float32, nullable: true },
            ColumnView { name: "temp_avg"@, kind: ColumnKind::Float32, nullable: true },
            ColumnView { name: "precipitation"@, kind: ColumnKind::Float32, nullable: true },
            ColumnView { name: "wind_speed"@, kind: ColumnKind::Float32, nullable: true },
            ColumnView { name: "temp_quality"@, kind: ColumnKind::Text, nullable: true },
            ColumnView { name: "precip_quality"@, kind: ColumnKind::Text, nullable: true },
            ColumnView { name: "wind_quality"@, kind: ColumnKind::Text, nullable: true },
            ColumnView { name: "temp_validation"@, kind: ColumnKind::Text, nullable: true },
            ColumnView { name: "precip_validation"@, kind: ColumnKind::Text, nullable: true },
            ColumnView { name: "wind_validation"@, kind: ColumnKind::Text, nullable: true },
        ],
{
    let mut columns: Vec<Column> = Vec::new();
    columns.push(Column { name: "station_id", kind: ColumnKind::UInt32, nullable: false });
    columns.push(Column { name: "station_name", kind: ColumnKind::Text, nullable: false });
    columns.push(Column { name: "date", kind: ColumnKind::Day, nullable: false });
    columns.push(Column { name: "latitude", kind: ColumnKind::Float64, nullable: false });
    columns.push(Column { name: "longitude", kind: ColumnKind::Float64, nullable: false });
    columns.push(Column { name: "temp_min", kind: ColumnKind::Float32, nullable: true });
    columns.push(Column { name: "temp_max", kind: ColumnKind::Float32, nullable: true });
    columns.push(Column { name: "temp_avg", kind: ColumnKind::Float32, nullable: true });
    columns.push(Column { name: "precipitation", kind: ColumnKind::Float32, nullable: true });
    columns.push(Column { name: "wind_speed", kind: ColumnKind::Float32, nullable: true });
    columns.push(Column { name: "temp_quality", kind: ColumnKind::Text, nullable: true });
    columns.push(Column { name: "precip_quality", kind: ColumnKind::Text, nullable: true });
    columns.push(Column { name: "wind_quality", kind: ColumnKind::Text, nullable: true });
    columns.push(Column { name: "temp_validation", kind: ColumnKind::Text, nullable: true });
    columns.push(Column { name: "precip_validation", kind: ColumnKind::Text, nullable: true });
    columns.push(Column { name: "wind_validation", kind: ColumnKind::Text, nullable: true });
    assert(columns@.map_values(|c: Column| c@) =~= seq![
        ColumnView { name: "station_id"@, kind: ColumnKind::UInt32, nullable: false },
        ColumnView { name: "station_name"@, kind: ColumnKind::Text, nullable: false },
        ColumnView { name: "date"@, kind: ColumnKind::Day, nullable: false },
        ColumnView { name: "latitude"@, kind: ColumnKind::Float64, nullable: false },
        ColumnView { name: "longitude"@, kind: ColumnKind::Float64, nullable: false },
        ColumnView { name: "temp_min"@, kind: ColumnKind::Float32, nullable: true },
        ColumnView { name: "temp_max"@, kind: ColumnKind::Float32, nullable: true },
        ColumnView { name: "temp_avg"@, kind: ColumnKind::Float32, nullable: true },
        ColumnView { name: "precipitation"@, kind: ColumnKind::Float32, nullable: true },
        ColumnView { name: "wind_speed"@, kind: ColumnKind::Float32, nullable: true },
        ColumnView { name: "temp_quality"@, kind: ColumnKind::Text, nullable: true },
        ColumnView { name: "precip_quality"@, kind: ColumnKind::Text, nullable: true },
        ColumnView { name: "wind_quality"@, kind: ColumnKind::Text, nullable: true },
        ColumnView { name: "temp_validation"@, kind: ColumnKind::Text, nullable: true },
        ColumnView { name: "precip_validation"@, kind: ColumnKind::Text, nullable: true },
        ColumnView { name: "wind_validation"@, kind: ColumnKind::Text, nullable: true },
    ]);
    columns
}

/// The columns of a batch of unified records: one entry for each record in
/// every column. Values are in tenths of their unit, an assessment is written
/// by its name.
#[derive(Debug, Clone)]
pub struct WeatherBatch {
    pub station_ids: Vec<u32>,
    pub station_names: Vec<String>,
    pub dates: Vec<Date>,
    pub latitudes: Vec<Coordinate>,
    pub longitudes: Vec<Coordinate>,
    pub temp_mins: Vec<Option<i32>>,
    pub temp_maxs: Vec<Option<i32>>,
    pub temp_avgs: Vec<Option<i32>>,
    pub precipitations: Vec<Option<i32>>,
    pub wind_speeds: Vec<Option<i32>>,
    pub temp_qualities: Vec<Option<String>>,
    pub precip_qualities: Vec<Option<String>>,
    pub wind_qualities: Vec<Option<String>>,
    pub temp_validations: Vec<Option<String>>,
    pub precip_validations: Vec<Option<String>>,
    pub wind_validations: Vec<Option<String>>,
}

/// A batch as plain values.
pub struct BatchView {
    pub station_ids: Seq<u32>,
    pub station_names: Seq<Seq<char>>,
    pub dates: Seq<Date>,
    pub latitudes: Seq<Coordinate>,
    pub longitudes: Seq<Coordinate>,
    pub temp_mins: Seq<Option<i32>>,
    pub temp_maxs: Seq<Option<i32>>,
    pub temp_avgs: Seq<Option<i32>>,
    pub precipitations: Seq<Option<i32>>,
    pub wind_speeds: Seq<Option<i32>>,
    pub temp_qualities: Seq<Option<Seq<char>>>,
    pub precip_qualities: Seq<Option<Seq<char>>>,
    pub wind_qualities: Seq<Option<Seq<char>>>,
    pub temp_validations: Seq<Option<Seq<char>>>,
    pub precip_validations: Seq<Option<Seq<char>>>,
    pub wind_validations: Seq<Option<Seq<char>>>,
}

pub open spec fn text_column(column: Seq<Option<String>>) -> Seq<Option<Seq<char>>> {
    column.map_values(|t: Option<String>| text_view(t))
}

impl View for WeatherBatch {
    type V = BatchView;

    open spec fn view(&self) -> BatchView {
        BatchView {
            station_ids: self.station_ids@,
            station_names: self.station_names@.map_values(|s: String| s@),
            dates: self.dates@,
            latitudes: self.latitudes@,
            longitudes: self.longitudes@,
            temp_mins: self.temp_mins@,
            temp_maxs: self.temp_maxs@,
            temp_avgs: self.temp_avgs@,
            precipitations: self.precipitations@,
            wind_speeds: self.wind_speeds@,
            temp_qualities: text_column(self.temp_qualities@),
            precip_qualities: text_column(self.precip_qualities@),
            wind_qualities: text_column(self.wind_qualities@),
            temp_validations: text_column(self.temp_validations@),
            precip_validations: text_column(self.precip_validations@),
            wind_validations: text_column(self.wind_validations@),
        }
    }
}

/// The name of an assessment, where there is one.
pub open spec fn validity_text(v: Option<PhysicalValidity>) -> Option<Seq<char>> {
    match v {
        Some(v) => Some(v.name()),
        None => None,
    }
}

/// The assessment that a text names, where there is a text and it names one.
pub open spec fn validity_read(t: Option<Seq<char>>) -> Option<PhysicalValidity> {
    match t {
        Some(t) => validity_of_name(t),
        None => None,
    }
}

/// The columns of a sequence of records.
pub open spec fn columns_of(rs: Seq<WeatherRecordView>) -> BatchView {
    BatchView {
        station_ids: Seq::new(rs.len(), |i: int| rs[i].station_id),
        station_names: Seq::new(rs.len(), |i: int| rs[i].station_name),
        dates: Seq::new(rs.len(), |i: int| rs[i].date),
        latitudes: Seq::new(rs.len(), |i: int| rs[i].latitude),
        longitudes: Seq::new(rs.len(), |i: int| rs[i].longitude),
        temp_mins: Seq::new(rs.len(), |i: int| rs[i].temp_min),
        temp_maxs: Seq::new(rs.len(), |i: int| rs[i].temp_max),
        temp_avgs: Seq::new(rs.len(), |i: int| rs[i].temp_avg),
        precipitations: Seq::new(rs.len(), |i: int| rs[i].precipitation),
        wind_speeds: Seq::new(rs.len(), |i: int| rs[i].wind_speed),
        temp_qualities: Seq::new(rs.len(), |i: int| rs[i].temp_quality),
        precip_qualities: Seq::new(rs.len(), |i: int| rs[i].precip_quality),
        wind_qualities: Seq::new(rs.len(), |i: int| rs[i].wind_quality),
        temp_validations: Seq::new(rs.len(), |i: int| validity_text(rs[i].temp_validation)),
        precip_validations: Seq::new(rs.len(), |i: int| validity_text(rs[i].precip_validation)),
        wind_validations: Seq::new(rs.len(), |i: int| validity_text(rs[i].wind_validation)),
    }
}

/// Every column of the batch has the same number of entries.
pub open spec fn is_rectangular(b: BatchView) -> bool {
    let n = b.station_ids.len();
    b.station_names.len() == n && b.dates.len() == n && b.latitudes.len() == n
        && b.longitudes.len() == n && b.temp_mins.len() == n && b.temp_maxs.len() == n
        && b.temp_avgs.len() == n && b.precipitations.len() == n && b.wind_speeds.len() == n
        && b.temp_qualities.len() == n && b.precip_qualities.len() == n && b.wind_qualities.len()
        == n && b.temp_validations.len() == n && b.precip_validations.len() == n
        && b.wind_validations.len() == n
}

/// The record that a batch holds at a place.
pub open spec fn row_of(b: BatchView, i: int) -> WeatherRecordView {
    WeatherRecordView {
        station_id: b.station_ids[i],
        station_name: b.station_names[i],
        date: b.dates[i],
        latitude: b.latitudes[i],
        longitude: b.longitudes[i],
        temp_min: b.temp_mins[i],
        temp_max: b.temp_maxs[i],
        temp_avg: b.temp_avgs[i],
        precipitation: b.precipitations[i],
        wind_speed: b.wind_speeds[i],
        temp_quality: b.temp_qualities[i],
        precip_quality: b.precip_qualities[i],
        wind_quality: b.wind_qualities[i],
        temp_validation: validity_read(b.temp_validations[i]),
        precip_validation: validity_read(b.precip_validations[i]),
        wind_validation: validity_read(b.wind_validations[i]),
    }
}

/// The records that a batch holds, in their order.
pub open spec fn rows_of(b: BatchView) -> Seq<WeatherRecordView> {
    Seq::new(b.station_ids.len(), |i: int| row_of(b, i))
}

/// The columns of a sequence of records hold these records, in their order:
/// what is written to a batch is what is read from it.
pub proof fn lemma_batch_round_trip(rs: Seq<WeatherRecordView>)
    ensures
        is_rectangular(columns_of(rs)),
        rows_of(columns_of(rs)) == rs,
{
    let b = columns_of(rs);
    assert forall|i: int| 0 <= i < rs.len() implies row_of(b, i) == rs[i] by {
        if rs[i].temp_validation is Some {
            lemma_validity_name_round_trip(rs[i].temp_validation->0);
        }
        if rs[i].precip_validation is Some {
            lemma_validity_name_round_trip(rs[i].precip_validation->0);
        }
        if rs[i].wind_validation is Some {
            lemma_validity_name_round_trip(rs[i].wind_validation->0);
        }
    }
    assert(rows_of(b) =~= rs);
}

fn validity_name(v: Option<PhysicalValidity>) -> (r: Option<String>)
    ensures
        text_view(r) == validity_text(v),
{
    match v {
        Some(v) => Some(String::from_str(v.as_str())),
        None => None,
    }
}

fn validity_from(t: &Option<String>) -> (r: Option<PhysicalValidity>)
    ensures
        r == validity_read(text_view(*t)),
{
    match t {
        Some(t) => PhysicalValidity::parse(t.as_str()),
        None => None,
    }
}

/// The columns of the records from `start` up to `end`.
pub fn weather_records_to_batch(records: &Vec<WeatherRecord>, start: usize, end: usize) -> (b:
    WeatherBatch)
    requires
        start <= end <= records@.len(),
    ensures
        b@ == columns_of(record_views(records@).subrange(start as int, end as int)),
{
    let ghost rs = record_views(records@).subrange(start as int, end as int);
    let mut b = WeatherBatch {
        station_ids: Vec::new(),
        station_names: Vec::new(),
        dates: Vec::new(),
        latitudes: Vec::new(),
        longitudes: Vec::new(),
        temp_mins: Vec::new(),
        temp_maxs: Vec::new(),
        temp_avgs: Vec::new(),
        precipitations: Vec::new(),
        wind_speeds: Vec::new(),
        temp_qualities: Vec::new(),
        precip_qualities: Vec::new(),
        wind_qualities: Vec::new(),
        temp_validations: Vec::new(),
        precip_validations: Vec::new(),
        wind_validations: Vec::new(),
    };
    let mut i: usize = start;
    while i < end
        invariant
            start <= i <= end <= records@.len(),
            rs == record_views(records@).subrange(start as int, end as int),
            is_rectangular(b@),
            b@.station_ids.len() == i - start,
            forall|k: int| 0 <= k < i - start ==> row_parts(b@, k) == parts_of(rs[k]),
        decreases end - i,
    {
        let r = &records[i];
        assert(rs[i - start] == r@);
        let ghost before = b@;
        b.station_ids.push(r.station_id);
        b.station_names.push(r.station_name.clone());
        b.dates.push(r.date);
        b.latitudes.push(r.latitude);
        b.longitudes.push(r.longitude);
        b.temp_mins.push(r.temp_min);
        b.temp_maxs.push(r.temp_max);
        b.temp_avgs.push(r.temp_avg);
        b.precipitations.push(r.precipitation);
        b.wind_speeds.push(r.wind_speed);
        b.temp_qualities.push(duplicate_text(&r.temp_quality));
        b.precip_qualities.push(duplicate_text(&r.precip_quality));
        b.wind_qualities.push(duplicate_text(&r.wind_quality));
        b.temp_validations.push(validity_name(r.temp_validation));
        b.precip_validations.push(validity_name(r.precip_validation));
        b.wind_validations.push(validity_name(r.wind_validation));
        proof {
            assert forall|k: int| 0 <= k < i - start + 1 implies row_parts(b@, k) == parts_of(
                rs[k],
            ) by {
                if k < i - start {
                    assert(row_parts(b@, k) == row_parts(before, k));
                }
            }
        }
        i += 1;
    }
    proof {
        let want = columns_of(rs);
        assert forall|k: int| 0 <= k < rs.len() implies row_parts(want, k) == parts_of(rs[k]) by {}
        assert(b@.station_ids =~= want.station_ids) by {
            assert forall|k: int| 0 <= k < rs.len() implies b@.station_ids[k]
                == want.station_ids[k] by {
                assert(row_parts(b@, k) == row_parts(want, k));
            }
        }
        assert(b@.station_names =~= want.station_names) by {
            assert forall|k: int| 0 <= k < rs.len() implies b@.station_names[k]
                == want.station_names[k] by {
                assert(row_parts(b@, k) == row_parts(want, k));
            }
        }
        assert(b@.dates =~= want.dates) by {
            assert forall|k: int| 0 <= k < rs.len() implies b@.dates[k] == want.dates[k] by {
                assert(row_parts(b@, k) == row_parts(want, k));
            }
        }
        assert(b@.latitudes =~= want.latitudes) by {
            assert forall|k: int| 0 <= k < rs.len() implies b@.latitudes[k] == want.latitudes[k] by {
                assert(row_parts(b@, k) == row_parts(want, k));
            }
        }
        assert(b@.longitudes =~= want.longitudes) by {
            assert forall|k: int| 0 <= k < rs.len() implies b@.longitudes[k]
                == want.longitudes[k] by {
                assert(row_parts(b@, k) == row_parts(want, k));
            }
        }
        assert(b@.temp_mins =~= want.temp_mins) by {
            assert forall|k: int| 0 <= k < rs.len() implies b@.temp_mins[k] == want.temp_mins[k] by {
                assert(row_parts(b@, k) == row_parts(want, k));
            }
        }
        assert(b@.temp_maxs =~= want.temp_maxs) by {
            assert forall|k: int| 0 <= k < rs.len() implies b@.temp_maxs[k] == want.temp_maxs[k] by {
                assert(row_parts(b@, k) == row_parts(want, k));
            }
        }
        assert(b@.temp_avgs =~= want.temp_avgs) by {
            assert forall|k: int| 0 <= k < rs.len() implies b@.temp_avgs[k] == want.temp_avgs[k] by {
                assert(row_parts(b@, k) == row_parts(want, k));
            }
        }
        assert(b@.precipitations =~= want.precipitations) by {
            assert forall|k: int| 0 <= k < rs.len() implies b@.precipitations[k]
                == want.precipitations[k] by {
                assert(row_parts(b@, k) == row_parts(want, k));
            }
        }
        assert(b@.wind_speeds =~= want.wind_speeds) by {
            assert forall|k: int| 0 <= k < rs.len() implies b@.wind_speeds[k]
                == want.wind_speeds[k] by {
                assert(row_parts(b@, k) == row_parts(want, k));
            }
        }
        assert(b@.temp_qualities =~= want.temp_qualities) by {
            assert forall|k: int| 0 <= k < rs.len() implies b@.temp_qualities[k]
                == want.temp_qualities[k] by {
                assert(row_parts(b@, k) == row_parts(want, k));
            }
        }
        assert(b@.precip_qualities =~= want.precip_qualities) by {
            assert forall|k: int| 0 <= k < rs.len() implies b@.precip_qualities[k]
                == want.precip_qualities[k] by {
                assert(row_parts(b@, k) == row_parts(want, k));
            }
        }
        assert(b@.wind_qualities =~= want.wind_qualities) by {
            assert forall|k: int| 0 <= k < rs.len() implies b@.wind_qualities[k]
                == want.wind_qualities[k] by {
                assert(row_parts(b@, k) == row_parts(want, k));
            }
        }
        assert(b@.temp_validations =~= want.temp_validations) by {
            assert forall|k: int| 0 <= k < rs.len() implies b@.temp_validations[k]
                == want.temp_validations[k] by {
                assert(row_parts(b@, k) == row_parts(want, k));
            }
        }
        assert(b@.precip_validations =~= want.precip_validations) by {
            assert forall|k: int| 0 <= k < rs.len() implies b@.precip_validations[k]
                == want.precip_validations[k] by {
                assert(row_parts(b@, k) == row_parts(want, k));
            }
        }
        assert(b@.wind_validations =~= want.wind_validations) by {
            assert forall|k: int| 0 <= k < rs.len() implies b@.wind_validations[k]
                == want.wind_validations[k] by {
                assert(row_parts(b@, k) == row_parts(want, k));
            }
        }
    }
    b
}

/// A record as it is written: its fields with each assessment by its name.
pub struct RowParts {
    pub record: WeatherRecordView,
    pub temp_validation: Option<Seq<char>>,
    pub precip_validation: Option<Seq<char>>,
    pub wind_validation: Option<Seq<char>>,
}

/// What a batch holds at a place, as it is written.
pub open spec fn row_parts(b: BatchView, i: int) -> RowParts {
    RowParts {
        record: WeatherRecordView {
            temp_validation: None,
            precip_validation: None,
            wind_validation: None,
            ..row_of(b, i)
        },
        temp_validation: b.temp_validations[i],
        precip_validation: b.precip_validations[i],
        wind_validation: b.wind_validations[i],
    }
}

/// A record as it is written.
pub open spec fn parts_of(r: WeatherRecordView) -> RowParts {
    RowParts {
        record: WeatherRecordView {
            temp_validation: None,
            precip_validation: None,
            wind_validation: None,
            ..r
        },
        temp_validation: validity_text(r.temp_validation),
        precip_validation: validity_text(r.precip_validation),
        wind_validation: validity_text(r.wind_validation),
    }
}

/// The records that a batch holds. A batch whose columns differ in length is
/// refused.
pub fn batch_to_weather_records(batch: &WeatherBatch) -> (r: Result<
    Vec<WeatherRecord>,
    ProcessingError,
>)
    ensures
        match r {
            Ok(records) => is_rectangular(batch@) && record_views(records@) == rows_of(batch@),
            Err(e) => !is_rectangular(batch@) && e is Config,
        },
{
    let n = batch.station_ids.len();
    if batch.station_names.len() != n || batch.dates.len() != n || batch.latitudes.len() != n
        || batch.longitudes.len() != n || batch.temp_mins.len() != n || batch.temp_maxs.len() != n
        || batch.temp_avgs.len() != n || batch.precipitations.len() != n
        || batch.wind_speeds.len() != n || batch.temp_qualities.len() != n
        || batch.precip_qualities.len() != n || batch.wind_qualities.len() != n
        || batch.temp_validations.len() != n || batch.precip_validations.len() != n
        || batch.wind_validations.len() != n {
        return Err(ProcessingError::Config(String::from_str("Columns differ in length")));
    }
    let mut records: Vec<WeatherRecord> = Vec::new();
    let mut i: usize = 0;
    while i < n
        invariant
            i <= n,
            n == batch@.station_ids.len(),
            is_rectangular(batch@),
            records@.len() == i,
            forall|k: int| 0 <= k < i ==> (#[trigger] records@[k])@ == row_of(batch@, k),
        decreases n - i,
    {
        let record = WeatherRecord::new_raw(
            batch.station_ids[i],
            batch.station_names[i].clone(),
            batch.dates[i],
            batch.latitudes[i],
            batch.longitudes[i],
            batch.temp_mins[i],
            batch.temp_maxs[i],
            batch.temp_avgs[i],
            batch.precipitations[i],
            batch.wind_speeds[i],
            duplicate_text(&batch.temp_qualities[i]),
            duplicate_text(&batch.precip_qualities[i]),
            duplicate_text(&batch.wind_qualities[i]),
            validity_from(&batch.temp_validations[i]),
            validity_from(&batch.precip_validations[i]),
            validity_from(&batch.wind_validations[i]),
        );
        records.push(record);
        i += 1;
    }
    assert(record_views(records@) =~= rows_of(batch@));
    Ok(records)
}

/// The columns of the table of consolidated records, in their order.
pub fn consolidated_columns() -> (columns: Vec<Column>)
    ensures
        columns@.map_values(|c: Column| c@) == seq![
            ColumnView { name: "station_id"@, kind: ColumnKind::UInt32, nullable: false },
            ColumnView { name: "station_name"@, kind: ColumnKind::Text, nullable: false },
            ColumnView { name: "date"@, kind: ColumnKind::Day, nullable: false },
            ColumnView { name: "latitude"@, kind: ColumnKind::Float64, nullable: false },
            ColumnView { name: "longitude"@, kind: ColumnKind::Float64, nullable: false },
            ColumnView { name: "min_temp"@, kind: ColumnKind::Float32, nullable: false },
            ColumnView { name: "max_temp"@, kind: ColumnKind::Float32, nullable: false },
            ColumnView { name: "avg_temp"@, kind: ColumnKind::Float32, nullable: false },
            ColumnView { name: "quality_flags"@, kind: ColumnKind::Text, nullable: false },
        ],
{
    let mut columns: Vec<Column> = Vec::new();
    columns.push(Column { name: "station_id", kind: ColumnKind::UInt32, nullable: false });
    columns.push(Column { name: "station_name", kind: ColumnKind::Text, nullable: false });
    columns.push(Column { name: "date", kind: ColumnKind::Day, nullable: false });
    columns.push(Column { name: "latitude", kind: ColumnKind::Float64, nullable: false });
    columns.push(Column { name: "longitude", kind: ColumnKind::Float64, nullable: false });
    columns.push(Column { name: "min_temp", kind: ColumnKind::Float32, nullable: false });
    columns.push(Column { name: "max_temp", kind: ColumnKind::Float32, nullable: false });
    columns.push(Column { name: "avg_temp", kind: ColumnKind::Float32, nullable: false });
    columns.push(Column { name: "quality_flags", kind: ColumnKind::Text, nullable: false });
    assert(columns@.map_values(|c: Column| c@) =~= seq![
        ColumnView { name: "station_id"@, kind: ColumnKind::UInt32, nullable: false },
        ColumnView { name: "station_name"@, kind: ColumnKind::Text, nullable: false },
        ColumnView { name: "date"@, kind: ColumnKind::Day, nullable: false },
        ColumnView { name: "latitude"@, kind: ColumnKind::Float64, nullable: false },
        ColumnView { name: "longitude"@, kind: ColumnKind::Float64, nullable: false },
        ColumnView { name: "min_temp"@, kind: ColumnKind::Float32, nullable: false },
        ColumnView { name: "max_temp"@, kind: ColumnKind::Float32, nullable: false },
        ColumnView { name: "avg_temp"@, kind: ColumnKind::Float32, nullable: false },
        ColumnView { name: "quality_flags"@, kind: ColumnKind::Text, nullable: false },
    ]);
    columns
}

/// The columns of a batch of consolidated records: one entry for each record
/// in every column. Temperatures are in tenths of a degree.
#[derive(Debug, Clone)]
pub struct ConsolidatedBatch {
    pub station_ids: Vec<u32>,
    pub station_names: Vec<String>,
    pub dates: Vec<Date>,
    pub latitudes: Vec<Coordinate>,
    pub longitudes: Vec<Coordinate>,
    pub min_temps: Vec<i32>,
    pub max_temps: Vec<i32>,
    pub avg_temps: Vec<i32>,
    pub quality_flags: Vec<String>,
}

/// Whether every column of the batch has the same number of entries.
pub open spec fn is_even(b: ConsolidatedBatch) -> bool {
    let n = b.station_ids@.len();
    b.station_names@.len() == n && b.dates@.len() == n && b.latitudes@.len() == n
        && b.longitudes@.len() == n && b.min_temps@.len() == n && b.max_temps@.len() == n
        && b.avg_temps@.len() == n && b.quality_flags@.len() == n
}

/// The record that a batch holds at a place.
pub open spec fn consolidated_row(b: ConsolidatedBatch, i: int) -> ConsolidatedView {
    ConsolidatedView {
        station_id: b.station_ids@[i],
        station_name: b.station_names@[i]@,
        date: b.dates@[i],
        latitude: b.latitudes@[i],
        longitude: b.longitudes@[i],
        min_temp: b.min_temps@[i],
        max_temp: b.max_temps@[i],
        avg_temp: b.avg_temps@[i],
        quality_flags: b.quality_flags@[i]@,
    }
}

/// The records that a batch holds, in their order.
pub open spec fn consolidated_rows(b: ConsolidatedBatch) -> Seq<ConsolidatedView> {
    Seq::new(b.station_ids@.len(), |i: int| consolidated_row(b, i))
}

/// The columns of the consolidated records from `start` up to `end`: the
/// batch holds these records, in their order.
pub fn records_to_batch(records: &Vec<ConsolidatedRecord>, start: usize, end: usize) -> (b:
    ConsolidatedBatch)
    requires
        start <= end <= records@.len(),
    ensures
        is_even(b),
        consolidated_rows(b) == consolidated_views(records@).subrange(start as int, end as int),
{
    let ghost rs = consolidated_views(records@).subrange(start as int, end as int);
    let mut b = ConsolidatedBatch {
        station_ids: Vec::new(),
        station_names: Vec::new(),
        dates: Vec::new(),
        latitudes: Vec::new(),
        longitudes: Vec::new(),
        min_temps: Vec::new(),
        max_temps: Vec::new(),
        avg_temps: Vec::new(),
        quality_flags: Vec::new(),
    };
    let mut i: usize = start;
    while i < end
        invariant
            start <= i <= end <= records@.len(),
            rs == consolidated_views(records@).subrange(start as int, end as int),
            is_even(b),
            b.station_ids@.len() == i - start,
            forall|k: int| 0 <= k < i - start ==> #[trigger] consolidated_row(b, k) == rs[k],
        decreases end - i,
    {
        let r = &records[i];
        assert(rs[i - start] == r@);
        let ghost before = b;
        b.station_ids.push(r.station_id);
        b.station_names.push(r.station_name.clone());
        b.dates.push(r.date);
        b.latitudes.push(r.latitude);
        b.longitudes.push(r.longitude);
        b.min_temps.push(r.min_temp);
        b.max_temps.push(r.max_temp);
        b.avg_temps.push(r.avg_temp);
        b.quality_flags.push(r.quality_flags.clone());
        proof {
            assert forall|k: int| 0 <= k < i - start + 1 implies #[trigger] consolidated_row(b, k)
                == rs[k] by {
                if k < i - start {
                    assert(consolidated_row(b, k) == consolidated_row(before, k));
                }
            }
        }
        i += 1;
    }
    assert(consolidated_rows(b) =~= rs);
    b
}

/// The consolidated records that a batch holds. A batch whose columns differ
/// in length is refused.
pub fn batch_to_records(batch: &ConsolidatedBatch) -> (r: Result<
    Vec<ConsolidatedRecord>,
    ProcessingError,
>)
    ensures
        match r {
            Ok(records) => is_even(*batch) && consolidated_views(records@) == consolidated_rows(
                *batch,
            ),
            Err(e) => !is_even(*batch) && e is Config,
        },
{
    let n = batch.station_ids.len();
    if batch.station_names.len() != n || batch.dates.len() != n || batch.latitudes.len() != n
        || batch.longitudes.len() != n || batch.min_temps.len() != n || batch.max_temps.len() != n
        || batch.avg_temps.len() != n || batch.quality_flags.len() != n {
        return Err(ProcessingError::Config(String::from_str("Columns differ in length")));
    }
    let mut records: Vec<ConsolidatedRecord> = Vec::new();
    let mut i: usize = 0;
    while i < n
        invariant
            i <= n,
            n == batch.station_ids@.len(),
            is_even(*batch),
            records@.len() == i,
            forall|k: int| 0 <= k < i ==> (#[trigger] records@[k])@ == consolidated_row(*batch, k),
        decreases n - i,
    {
        records.push(
            ConsolidatedRecord::new(
                batch.station_ids[i],
                batch.station_names[i].clone(),
                batch.dates[i],
                batch.latitudes[i],
                batch.longitudes[i],
                batch.min_temps[i],
                batch.max_temps[i],
                batch.avg_temps[i],
                batch.quality_flags[i].clone(),
            ),
        );
        i += 1;
    }
    assert(consolidated_views(records@) =~= consolidated_rows(*batch));
    Ok(records)
}

/// The settings of the columnar writer.
#[derive(Debug, Clone, Copy)]
pub struct ParquetWriter {
    compression: Compression,
    row_group_size: usize,
}

impl ParquetWriter {
    pub closed spec fn compression_setting(&self) -> Compression {
        self.compression
    }

    pub closed spec fn row_group_setting(&self) -> usize {
        self.row_group_size
    }

    /// A writer that compresses with snappy and puts 10 000 rows in a group.
    pub fn new() -> (w: ParquetWriter)
        ensures
            w.compression_setting() == Compression::Snappy,
            w.row_group_setting() == DEFAULT_ROW_GROUP_SIZE,
    {
        ParquetWriter { compression: Compression::Snappy, row_group_size: DEFAULT_ROW_GROUP_SIZE }
    }

    /// The writer with the compression of the given name: one of snappy,
    /// gzip, lz4, zstd and none, in any case.
    pub fn with_compression(self, compression: &str) -> (r: Result<ParquetWriter, ProcessingError>)
        ensures
            match r {
                Ok(w) => compression_of(compression@) == Some(w.compression_setting())
                    && w.row_group_setting() == self.row_group_setting(),
                Err(e) => compression_of(compression@).is_none() && e is Config,
            },
    {
        let name = chars_of(compression);
        let chosen = if equals_ignoring_case(&name, "snappy") {
            Compression::Snappy
        } else if equals_ignoring_case(&name, "gzip") {
            Compression::Gzip
        } else if equals_ignoring_case(&name, "lz4") {
            Compression::Lz4
        } else if equals_ignoring_case(&name, "zstd") {
            Compression::Zstd
        } else if equals_ignoring_case(&name, "none") {
            Compression::Uncompressed
        } else {
            let mut message = String::from_str("Unsupported compression: ");
            message.append(compression);
            return Err(ProcessingError::Config(message));
        };
        Ok(ParquetWriter { compression: chosen, row_group_size: self.row_group_size })
    }

    pub fn with_row_group_size(self, size: usize) -> (w: ParquetWriter)
        ensures
            w.compression_setting() == self.compression_setting(),
            w.row_group_setting() == size,
    {
        ParquetWriter { compression: self.compression, row_group_size: size }
    }

    pub fn compression(&self) -> (c: Compression)
        ensures
            c == self.compression_setting(),
    {
        self.compression
    }

    pub fn row_group_size(&self) -> (n: usize)
        ensures
            n == self.row_group_setting(),
    {
        self.row_group_size
    }

    /// What the rows of a table with so many columns are.
    pub fn detect_schema_type(&self, num_columns: usize) -> (t: SchemaType)
        ensures
            t == schema_of_width(num_columns as nat),
    {
        if num_columns == 9 {
            SchemaType::ConsolidatedRecord
        } else if num_columns == 13 || num_columns == 16 {
            SchemaType::WeatherRecord
        } else {
            SchemaType::Unknown
        }
    }

    /// The batches in which `len` rows are written, `batch_size` rows at a
    /// time.
    pub fn batches(&self, len: usize, batch_size: usize) -> (r: Vec<(usize, usize)>)
        requires
            batch_size > 0,
        ensures
            r@ == batches_of(len as nat, batch_size as nat),
            forall|i: int|
                0 <= i < r@.len() ==> (#[trigger] r@[i]).0 < r@[i].1 <= len && r@[i].1 - r@[i].0
                    <= batch_size,
    {
        let mut r: Vec<(usize, usize)> = Vec::new();
        let mut start: usize = 0;
        let ghost want = batches_of(len as nat, batch_size as nat);
        let ghost n = want.len() as int;
        proof {
            let x = len + batch_size - 1;
            let d = batch_size as int;
            vstd::arithmetic::div_mod::lemma_fundamental_div_mod(x, d);
            vstd::arithmetic::div_mod::lemma_mod_bound(x, d);
            vstd::arithmetic::div_mod::lemma_div_pos_is_pos(x, d);
            assert(n == x / d);
            assert(d * n >= len && d * (n - 1) < len) by (nonlinear_arith)
                requires
                    x == d * n + x % d,
                    0 <= x % d < d,
                    x == len + d - 1,
            ;
            assert(len == 0 ==> n == 0) by (nonlinear_arith)
                requires
                    d * (n - 1) < len,
                    n >= 0,
                    d > 0,
            ;
            assert(r@.len() * batch_size == 0) by (nonlinear_arith)
                requires
                    r@.len() == 0,
            ;
        }
        while start < len
            invariant
                batch_size > 0,
                start <= len,
                want == batches_of(len as nat, batch_size as nat),
                n == want.len(),
                batch_size * n >= len,
                batch_size * (n - 1) < len,
                start == r@.len() * batch_size || start == len,
                start == len ==> r@.len() == n,
                r@.len() <= n,
                forall|i: int| 0 <= i < r@.len() ==> r@[i] == want[i],
                forall|i: int|
                    0 <= i < r@.len() ==> (#[trigger] r@[i]).0 < r@[i].1 <= len && r@[i].1
                        - r@[i].0 <= batch_size,
            decreases len - start,
        {
            let end = if len - start > batch_size {
                start + batch_size
            } else {
                len
            };
            proof {
                let k = r@.len() as int;
                let d = batch_size as int;
                assert(start == k * d);
                assert((k + 1) * d == k * d + d) by (nonlinear_arith);
                assert(k < n) by (nonlinear_arith)
                    requires
                        k * d < len,
                        d > 0,
                        d * n >= len,
                ;
                if end == len {
                    assert(k + 1 == n) by (nonlinear_arith)
                        requires
                            k < n,
                            d * (n - 1) < len,
                            (k + 1) * d >= len,
                            d > 0,
                    ;
                }
            }
            r.push((start, end));
            start = end;
        }
        assert(r@ =~= want);
        r
    }
}

} // verus!
