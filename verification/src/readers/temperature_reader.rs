//! The rows of a per-station data file.

use vstd::prelude::*;
use vstd::string::*;
use crate::error::{invalid_format, ProcessingError};
use crate::models::date::{chrono_compact_date, date_triple, Date};
use crate::models::temperature::{flag_of_code, TemperatureRecord};
use crate::utils::text::{
    chars_of,
    find,
    find_spec,
    ends_with,
    ends_with_spec,
    is_blank,
    lines,
    lines_spec,
    parse_signed,
    parse_signed_spec,
    parse_unsigned,
    parse_unsigned_spec,
    slice_of,
    split_trimmed,
    string_of,
    strip_zeros,
    strip_zeros_spec,
    trim_spec,
    trimmed_fields,
};

verus! {

/// How many lines at the head of a data file are taken for its banner.
pub const HEADER_LINES: usize = 20;

/// The value that stands for an absent observation.
pub const MISSING_OBSERVATION: i32 = -9999;

/// Why a line of a data file is rejected.
pub enum LineFault {
    /// The source cannot be read.
    Source,
    /// The day cannot be read.
    Day,
    /// The value cannot be read.
    Value,
    /// The flag cannot be read.
    Flag,
    /// The flag is a number other than 0, 1 and 9.
    FlagCode(u8),
}

/// What a line of a data file amounts to.
pub enum LineReading {
    /// The line is no observation and no fault: too few fields, or the
    /// sentinel for an absent value.
    Skipped,
    /// A field cannot be read, or the flag is none of 0, 1 and 9.
    Rejected(LineFault),
    /// The line gives an observation.
    Observation(TemperatureRecord),
}

/// Whether an error is the one that reports the fault: a flag that is no
/// flag is an invalid quality flag, a value that cannot be read an invalid
/// temperature, anything else an invalid format.
pub open spec fn reports(e: ProcessingError, fault: LineFault) -> bool {
    match fault {
        LineFault::Source => e is InvalidFormat,
        LineFault::Day => e is InvalidFormat,
        LineFault::Value => e is InvalidTemperature,
        LineFault::Flag => e is InvalidFormat,
        LineFault::FlagCode(code) => e == ProcessingError::InvalidQualityFlag(code),
    }
}

/// Whether a result is what a reading of a line calls for: nothing for a
/// skipped line, the error of its fault for a rejected line, and the
/// observation otherwise.
pub open spec fn answers(
    r: Result<Option<TemperatureRecord>, ProcessingError>,
    reading: LineReading,
) -> bool {
    match reading {
        LineReading::Skipped => r matches Ok(None),
        LineReading::Rejected(fault) => r matches Err(e) && reports(e, fault),
        LineReading::Observation(rec) => r == Ok::<Option<TemperatureRecord>, ProcessingError>(
            Some(rec),
        ),
    }
}

/// What the trimmed fields of a line amount to for a station, `date` being
/// the day that the second field was read as: fewer than four fields are
/// skipped; the source, the day, the value and the flag are read in this
/// order and the line is rejected at the first that cannot be read; the
/// sentinel -9999 as value skips the line before the flag is looked at.
pub open spec fn reading_of_fields(
    fields: Seq<Seq<char>>,
    station_id: u32,
    date: Option<(int, int, int)>,
) -> LineReading {
    if fields.len() < 4 {
        LineReading::Skipped
    } else {
        match (
            parse_unsigned_spec(fields[0], u32::MAX as nat),
            date,
            parse_signed_spec(fields[2], i32::MIN as int, i32::MAX as int),
            parse_unsigned_spec(fields[3], u8::MAX as nat),
        ) {
            (None, _, _, _) => LineReading::Rejected(LineFault::Source),
            (Some(_), None, _, _) => LineReading::Rejected(LineFault::Day),
            (Some(_), Some(_), None, _) => LineReading::Rejected(LineFault::Value),
            (Some(souid), Some(d), Some(value), flag) => {
                if value == MISSING_OBSERVATION {
                    LineReading::Skipped
                } else {
                    match flag {
                        None => LineReading::Rejected(LineFault::Flag),
                        Some(code) => if flag_of_code(code as u8).is_some() {
                            LineReading::Observation(
                                TemperatureRecord {
                                    staid: station_id,
                                    souid: souid as u32,
                                    date: Date {
                                        year: d.0 as i32,
                                        month: d.1 as u32,
                                        day: d.2 as u32,
                                    },
                                    temperature: value as i32,
                                    quality_flag: code as u8,
                                },
                            )
                        } else {
                            LineReading::Rejected(LineFault::FlagCode(code as u8))
                        },
                    }
                }
            },
        }
    }
}

/// What a line of a data file amounts to for a station.
pub open spec fn reading_of_line(line: Seq<char>, station_id: u32) -> LineReading {
    let fields = trimmed_fields(line, ',');
    reading_of_fields(
        fields,
        station_id,
        if fields.len() < 4 {
            None
        } else {
            chrono_compact_date(fields[1])
        },
    )
}

/// The observations of the lines up to `count`: a blank line gives none, nor
/// does one of the first twenty lines where the banner is skipped, nor a line
/// that is skipped or rejected.
pub open spec fn observations_of_lines(
    lines: Seq<Seq<char>>,
    station_id: u32,
    skip_headers: bool,
    count: int,
) -> Seq<TemperatureRecord>
    decreases count,
{
    if count <= 0 {
        Seq::empty()
    } else {
        let before = observations_of_lines(lines, station_id, skip_headers, count - 1);
        let line = lines[count - 1];
        if trim_spec(line).len() == 0 || (skip_headers && count <= HEADER_LINES) {
            before
        } else {
            match reading_of_line(line, station_id) {
                LineReading::Observation(r) => before.push(r),
                _ => before,
            }
        }
    }
}

/// No observation of a data file holds the sentinel for an absent value: a
/// line with the value -9999 gives no observation.
pub proof fn lemma_sentinel_never_observed(
    lines: Seq<Seq<char>>,
    station_id: u32,
    skip_headers: bool,
    count: int,
)
    ensures
        forall|i: int|
            0 <= i < observations_of_lines(lines, station_id, skip_headers, count).len() ==> (
            #[trigger] observations_of_lines(lines, station_id, skip_headers, count)[i]).temperature
                != MISSING_OBSERVATION,
    decreases count,
{
    if count > 0 {
        lemma_sentinel_never_observed(lines, station_id, skip_headers, count - 1);
        let before = observations_of_lines(lines, station_id, skip_headers, count - 1);
        let now = observations_of_lines(lines, station_id, skip_headers, count);
        assert forall|i: int| 0 <= i < now.len() implies (#[trigger] now[i]).temperature
            != MISSING_OBSERVATION by {
            if i < before.len() {
                assert(now[i] == before[i]);
            } else {
                assert(reading_of_line(lines[count - 1], station_id) == LineReading::Observation(
                    now[i],
                ));
            }
        }
    }
}

/// The observations that the text of a data file gives for a station.
pub open spec fn observations_of_text(text: Seq<char>, station_id: u32, skip_headers: bool) -> Seq<
    TemperatureRecord,
> {
    observations_of_lines(lines_spec(text), station_id, skip_headers, lines_spec(text).len() as int)
}

/// The part of a path after its last slash.
pub open spec fn file_name_of(path: Seq<char>) -> Seq<char>
    decreases path.len(),
{
    if path.len() == 0 {
        path
    } else if path.last() == '/' {
        Seq::empty()
    } else {
        file_name_of(path.drop_last()).push(path.last())
    }
}

/// The station number in a file name such as `TN_STAID000257.txt`: the name
/// ends in `.txt`, and what stands between the first `STAID` and that ending
/// is, without its leading zeros, a number.
pub open spec fn station_id_of_file_name(name: Seq<char>) -> Option<u32> {
    if !ends_with_spec(name, ".txt"@) {
        None
    } else {
        let stem = name.take(name.len() - 4);
        let at = find_spec(stem, "STAID"@);
        if at < 0 {
            None
        } else {
            match parse_unsigned_spec(strip_zeros_spec(stem.skip(at + 5)), u32::MAX as nat) {
                Some(n) => Some(n as u32),
                None => None,
            }
        }
    }
}

/// What the fields of a line amount to, the day of the second field given.
pub fn observation_from_fields(
    fields: &Vec<Vec<char>>,
    station_id: u32,
    date: Option<Date>,
) -> (r: Result<Option<TemperatureRecord>, ProcessingError>)
    ensures
        answers(
            r,
            reading_of_fields(fields@.map_values(|f: Vec<char>| f@), station_id, date_triple(date)),
        ),
{
    let ghost sfields = fields@.map_values(|f: Vec<char>| f@);
    if fields.len() < 4 {
        return Ok(None);
    }
    assert(sfields[0] == fields@[0]@ && sfields[2] == fields@[2]@ && sfields[3] == fields@[3]@);
    let souid = match parse_unsigned(&fields[0], u32::MAX as u64) {
        Some(v) => v as u32,
        None => {
            return Err(invalid_format("Invalid source ID: ", string_of(&fields[0]).as_str()));
        },
    };
    let date = match date {
        Some(d) => d,
        None => {
            return Err(invalid_format("Invalid date format: ", string_of(&fields[1]).as_str()));
        },
    };
    let value = match parse_signed(&fields[2], i32::MIN as i64, i32::MAX as i64) {
        Some(v) => v as i32,
        None => {
            return Err(ProcessingError::InvalidTemperature(string_of(&fields[2])));
        },
    };
    if value == MISSING_OBSERVATION {
        return Ok(None);
    }
    let flag = match parse_unsigned(&fields[3], u8::MAX as u64) {
        Some(v) => v as u8,
        None => {
            return Err(invalid_format("Invalid quality flag: ", string_of(&fields[3]).as_str()));
        },
    };
    match TemperatureRecord::new(station_id, souid, date, value, flag) {
        Ok(rec) => Ok(Some(rec)),
        Err(e) => Err(e),
    }
}

/// Reads one line of a data file for a station.
pub fn observation_of_line(line: &Vec<char>, station_id: u32) -> (r: Result<
    Option<TemperatureRecord>,
    ProcessingError,
>)
    ensures
        answers(r, reading_of_line(line@, station_id)),
{
    let fields = split_trimmed(line, ',');
    if fields.len() < 4 {
        return Ok(None);
    }
    assert(fields@.map_values(|f: Vec<char>| f@)[1] == fields@[1]@);
    let date = Date::parse_compact(string_of(&fields[1]).as_str());
    observation_from_fields(&fields, station_id, date)
}

/// The observations that the text of a data file gives for a station.
pub fn observations_of(text: &str, station_id: u32, skip_headers: bool) -> (r: Vec<
    TemperatureRecord,
>)
    ensures
        r@ == observations_of_text(text@, station_id, skip_headers),
{
    let chars = chars_of(text);
    let all = lines(&chars);
    let ghost slines = lines_spec(text@);
    let mut records: Vec<TemperatureRecord> = Vec::new();
    let mut i: usize = 0;
    while i < all.len()
        invariant
            i <= all.len(),
            slines == all@.map_values(|l: Vec<char>| l@),
            records@ == observations_of_lines(slines, station_id, skip_headers, i as int),
        decreases all.len() - i,
    {
        let line = &all[i];
        assert(slines[i as int] == line@);
        i += 1;
        if is_blank(line) {
            continue;
        }
        if skip_headers && i <= HEADER_LINES {
            continue;
        }
        match observation_of_line(line, station_id) {
            Ok(Some(rec)) => {
                records.push(rec);
            },
            _ => {},
        }
    }
    records
}

/// The station number in the characters of a file name.
pub fn station_id_of_name(name: &Vec<char>) -> (r: Option<u32>)
    ensures
        r == station_id_of_file_name(name@),
{
    if !ends_with(name, ".txt") {
        return None;
    }
    proof {
        reveal_strlit(".txt");
    }
    let stem = slice_of(name, 0, name.len() - 4);
    assert(stem@ =~= name@.take(name.len() - 4));
    let pattern = chars_of("STAID");
    proof {
        reveal_strlit("STAID");
    }
    match find(&stem, &pattern) {
        Some(at) => {
            proof {
                crate::utils::text::lemma_find_in_range(stem@, pattern@);
            }
            let rest = slice_of(&stem, at + 5, stem.len());
            assert(rest@ =~= stem@.skip(at + 5));
            let digits = strip_zeros(&rest);
            match parse_unsigned(&digits, u32::MAX as u64) {
                Some(n) => Some(n as u32),
                None => None,
            }
        },
        None => None,
    }
}

/// Reads the rows of per-station data files.
pub struct TemperatureReader {
    skip_headers: bool,
    use_mmap: bool,
}

impl TemperatureReader {
    /// Whether the first twenty lines of a file are skipped as its banner.
    pub closed spec fn skips_headers(&self) -> bool {
        self.skip_headers
    }

    /// Whether files are to be mapped into memory rather than read through a
    /// buffer. The rows read are the same either way.
    pub closed spec fn maps_memory(&self) -> bool {
        self.use_mmap
    }

    pub fn new() -> (r: TemperatureReader)
        ensures
            r.skips_headers(),
            !r.maps_memory(),
    {
        TemperatureReader { skip_headers: true, use_mmap: false }
    }

    pub fn with_skip_headers(skip_headers: bool) -> (r: TemperatureReader)
        ensures
            r.skips_headers() == skip_headers,
            !r.maps_memory(),
    {
        TemperatureReader { skip_headers, use_mmap: false }
    }

    pub fn with_mmap(use_mmap: bool) -> (r: TemperatureReader)
        ensures
            r.skips_headers(),
            r.maps_memory() == use_mmap,
    {
        TemperatureReader { skip_headers: true, use_mmap }
    }

    /// Whether files are to be mapped into memory.
    pub fn uses_mmap(&self) -> (r: bool)
        ensures
            r == self.maps_memory(),
    {
        self.use_mmap
    }

    /// The station number that the name of a data file gives.
    pub fn extract_station_id_from_path(&self, path: &str) -> (r: Result<u32, ProcessingError>)
        ensures
            match r {
                Ok(id) => station_id_of_file_name(file_name_of(path@)) == Some(id),
                Err(e) => station_id_of_file_name(file_name_of(path@)).is_none()
                    && e is InvalidFormat,
            },
    {
        let chars = chars_of(path);
        let name = file_name(&chars);
        match station_id_of_name(&name) {
            Some(id) => Ok(id),
            None => Err(
                invalid_format(
                    "Could not extract station ID from filename: ",
                    string_of(&name).as_str(),
                ),
            ),
        }
    }

    /// Reads one line of a data file for a station: `Ok(None)` for a line
    /// that is skipped, an error for one that is rejected.
    pub fn parse_temperature_line(&self, line: &str, station_id: u32) -> (r: Result<
        Option<TemperatureRecord>,
        ProcessingError,
    >)
        ensures
            answers(r, reading_of_line(line@, station_id)),
    {
        let chars = chars_of(line);
        observation_of_line(&chars, station_id)
    }

    /// The observations of a data file, the station taken from the file's name.
    pub fn read_temperatures(&self, path: &str, content: &str) -> (r: Result<
        Vec<TemperatureRecord>,
        ProcessingError,
    >)
        ensures
            match r {
                Ok(records) => station_id_of_file_name(file_name_of(path@)) matches Some(id)
                    && records@ == observations_of_text(content@, id, self.skips_headers()),
                Err(e) => station_id_of_file_name(file_name_of(path@)).is_none()
                    && e is InvalidFormat,
            },
    {
        match self.extract_station_id_from_path(path) {
            Ok(id) => Ok(observations_of(content, id, self.skip_headers)),
            Err(e) => Err(e),
        }
    }

    /// The observations of a data file for the given station.
    pub fn read_temperatures_with_station_id(&self, content: &str, station_id: u32) -> (r: Vec<
        TemperatureRecord,
    >)
        ensures
            r@ == observations_of_text(content@, station_id, self.skips_headers()),
    {
        observations_of(content, station_id, self.skip_headers)
    }

    /// The observations of a data file if its name gives the station asked
    /// for, and none if it gives another.
    pub fn read_station_temperatures(&self, path: &str, content: &str, station_id: u32) -> (r:
        Result<Vec<TemperatureRecord>, ProcessingError>)
        ensures
            match r {
                Ok(records) => station_id_of_file_name(file_name_of(path@)) matches Some(id)
                    && records@ == (if id == station_id {
                        observations_of_text(content@, id, self.skips_headers())
                    } else {
                        Seq::<TemperatureRecord>::empty()
                    }),
                Err(e) => station_id_of_file_name(file_name_of(path@)).is_none()
                    && e is InvalidFormat,
            },
    {
        match self.extract_station_id_from_path(path) {
            Ok(id) => {
                if id == station_id {
                    Ok(observations_of(content, id, self.skip_headers))
                } else {
                    Ok(Vec::new())
                }
            },
            Err(e) => Err(e),
        }
    }
}

/// The part of a path after its last slash.
pub fn file_name(path: &Vec<char>) -> (r: Vec<char>)
    ensures
        r@ == file_name_of(path@),
{
    let mut r: Vec<char> = Vec::new();
    let mut i: usize = 0;
    assert(path@.take(0) =~= Seq::<char>::empty());
    while i < path.len()
        invariant
            i <= path.len(),
            r@ == file_name_of(path@.take(i as int)),
        decreases path.len() - i,
    {
        proof {
            let next = path@.take(i as int + 1);
            assert(next.drop_last() =~= path@.take(i as int));
        }
        if path[i] == '/' {
            r = Vec::new();
            assert(r@ =~= Seq::<char>::empty());
        } else {
            r.push(path[i]);
        }
        i += 1;
    }
    assert(path@.take(path.len() as int) =~= path@);
    r
}

} // verus!
