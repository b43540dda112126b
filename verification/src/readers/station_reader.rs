//! The station catalog of an archive.

use vstd::prelude::*;
use vstd::string::*;
use std::collections::HashMap;
use crate::error::{invalid_format, ProcessingError};
use crate::models::station::{StationMetadata, StationView};
use crate::utils::coordinates::{coordinate_of_chars, coordinate_spec, Coordinate};
use crate::utils::text::{
    chars_of,
    equals_str,
    is_blank,
    is_digit,
    is_digit_char,
    is_whitespace_char,
    lines,
    lines_spec,
    parse_signed,
    parse_signed_spec,
    parse_unsigned,
    parse_unsigned_spec,
    split_trimmed,
    string_of,
    trim_spec,
    trim_start_spec,
    trimmed_fields,
};

verus! {

/// Why a line of the catalog is rejected.
pub enum StationFault {
    /// The number of the station cannot be read.
    Number,
    /// The latitude or the longitude cannot be read.
    Position,
    /// The elevation cannot be read.
    Elevation,
}

/// What a line of the catalog amounts to.
pub enum StationReading {
    /// Fewer than six fields.
    Skipped,
    /// A field cannot be read.
    Rejected(StationFault),
    Station(StationView),
}

/// Whether a result is what a reading of a line calls for: nothing for a
/// skipped line, the station otherwise, and for a rejected line an invalid
/// coordinate where the position is at fault and an invalid format else.
pub open spec fn answers(
    r: Result<Option<StationMetadata>, ProcessingError>,
    reading: StationReading,
) -> bool {
    match reading {
        StationReading::Skipped => r matches Ok(None),
        StationReading::Rejected(fault) => r matches Err(e) && (match fault {
            StationFault::Position => e is InvalidCoordinate,
            _ => e is InvalidFormat,
        }),
        StationReading::Station(s) => r matches Ok(Some(station)) && station@ == s,
    }
}

/// The elevation that a field gives: none for an empty field and for the
/// sentinel -999, a whole number of metres otherwise.
pub open spec fn elevation_of_field(field: Seq<char>) -> Option<Option<i32>> {
    if field.len() == 0 || field == "-999"@ {
        Some(None)
    } else {
        match parse_signed_spec(field, i32::MIN as int, i32::MAX as int) {
            Some(v) => Some(Some(v as i32)),
            None => None,
        }
    }
}

/// What the trimmed fields of a line of the catalog amount to: number, name,
/// country, latitude, longitude and elevation, read in this order.
pub open spec fn station_of_fields(fields: Seq<Seq<char>>) -> StationReading {
    if fields.len() < 6 {
        StationReading::Skipped
    } else {
        match (
            parse_unsigned_spec(fields[0], u32::MAX as nat),
            coordinate_spec(fields[3]),
            coordinate_spec(fields[4]),
            elevation_of_field(fields[5]),
        ) {
            (None, _, _, _) => StationReading::Rejected(StationFault::Number),
            (Some(_), None, _, _) => StationReading::Rejected(StationFault::Position),
            (Some(_), Some(_), None, _) => StationReading::Rejected(StationFault::Position),
            (Some(_), Some(_), Some(_), None) => StationReading::Rejected(StationFault::Elevation),
            (Some(staid), Some(lat), Some(lon), Some(elevation)) => StationReading::Station(
                StationView {
                    staid: staid as u32,
                    name: fields[1],
                    country: fields[2],
                    latitude: Coordinate { micro_arcsec: lat as i64 },
                    longitude: Coordinate { micro_arcsec: lon as i64 },
                    elevation,
                },
            ),
        }
    }
}

pub open spec fn station_of_line(line: Seq<char>) -> StationReading {
    station_of_fields(trimmed_fields(line, ','))
}

/// The first character of a line that is no white space is a digit.
pub open spec fn begins_with_digit(line: Seq<char>) -> bool {
    trim_start_spec(line).len() > 0 && is_digit(trim_start_spec(line)[0])
}

/// The stations of the lines up to `count`: a blank line gives none, nor does
/// a line that does not begin with a digit where headers are skipped, nor a
/// line that is skipped or rejected.
pub open spec fn stations_of_lines(lines: Seq<Seq<char>>, skip_headers: bool, count: int) -> Seq<
    StationView,
>
    decreases count,
{
    if count <= 0 {
        Seq::empty()
    } else {
        let before = stations_of_lines(lines, skip_headers, count - 1);
        let line = lines[count - 1];
        if trim_spec(line).len() == 0 || (skip_headers && !begins_with_digit(line)) {
            before
        } else {
            match station_of_line(line) {
                StationReading::Station(s) => before.push(s),
                _ => before,
            }
        }
    }
}

/// The stations that the text of a catalog gives.
pub open spec fn stations_of_text(text: Seq<char>, skip_headers: bool) -> Seq<StationView> {
    stations_of_lines(lines_spec(text), skip_headers, lines_spec(text).len() as int)
}

pub open spec fn station_views(stations: Seq<StationMetadata>) -> Seq<StationView> {
    stations.map_values(|s: StationMetadata| s@)
}

/// The last station of the sequence with the given number.
pub open spec fn station_with_id(stations: Seq<StationView>, id: u32) -> Option<StationView>
    decreases stations.len(),
{
    if stations.len() == 0 {
        None
    } else if stations.last().staid == id {
        Some(stations.last())
    } else {
        station_with_id(stations.drop_last(), id)
    }
}

/// The map holds, under each number, the last station of the sequence with
/// that number.
pub open spec fn is_lookup_of(m: Map<u32, StationMetadata>, stations: Seq<StationView>) -> bool {
    forall|id: u32|
        (#[trigger] m.contains_key(id) <==> station_with_id(stations, id) is Some) && (
        m.contains_key(id) ==> Some(m[id]@) == station_with_id(stations, id))
}

fn first_is_digit(line: &Vec<char>) -> (r: bool)
    ensures
        r == begins_with_digit(line@),
{
    let n = line.len();
    let mut start: usize = 0;
    assert(line@.subrange(0, n as int) =~= line@);
    while start < n && is_whitespace_char(line[start])
        invariant
            start <= n == line.len(),
            trim_start_spec(line@) == trim_start_spec(line@.subrange(start as int, n as int)),
        decreases n - start,
    {
        proof {
            let cur = line@.subrange(start as int, n as int);
            assert(cur.drop_first() =~= line@.subrange(start as int + 1, n as int));
        }
        start += 1;
    }
    start < n && is_digit_char(line[start])
}

/// Reads one line of the catalog from its characters.
pub fn station_of_chars(line: &Vec<char>) -> (r: Result<Option<StationMetadata>, ProcessingError>)
    ensures
        answers(r, station_of_line(line@)),
{
    let fields = split_trimmed(line, ',');
    let ghost sfields = trimmed_fields(line@, ',');
    if fields.len() < 6 {
        return Ok(None);
    }
    assert(sfields[0] == fields@[0]@ && sfields[1] == fields@[1]@ && sfields[2] == fields@[2]@
        && sfields[3] == fields@[3]@ && sfields[4] == fields@[4]@ && sfields[5] == fields@[5]@);
    let staid = match parse_unsigned(&fields[0], u32::MAX as u64) {
        Some(v) => v as u32,
        None => {
            return Err(invalid_format("Invalid station ID: ", string_of(&fields[0]).as_str()));
        },
    };
    let latitude = match coordinate_of_chars(&fields[3]) {
        Ok(c) => c,
        Err(e) => {
            return Err(e);
        },
    };
    let longitude = match coordinate_of_chars(&fields[4]) {
        Ok(c) => c,
        Err(e) => {
            return Err(e);
        },
    };
    let elevation = if fields[5].len() == 0 || equals_str(&fields[5], "-999") {
        None
    } else {
        match parse_signed(&fields[5], i32::MIN as i64, i32::MAX as i64) {
            Some(v) => Some(v as i32),
            None => {
                return Err(invalid_format("Invalid elevation: ", string_of(&fields[5]).as_str()));
            },
        }
    };
    Ok(
        Some(
            StationMetadata::new(
                staid,
                string_of(&fields[1]),
                string_of(&fields[2]),
                latitude,
                longitude,
                elevation,
            ),
        ),
    )
}

/// Reads the station catalog.
pub struct StationReader {
    skip_headers: bool,
}

impl StationReader {
    /// Whether lines that do not begin with a digit are taken for headers.
    pub closed spec fn skips_headers(&self) -> bool {
        self.skip_headers
    }

    pub fn new() -> (r: StationReader)
        ensures
            r.skips_headers(),
    {
        StationReader { skip_headers: true }
    }

    pub fn with_skip_headers(skip_headers: bool) -> (r: StationReader)
        ensures
            r.skips_headers() == skip_headers,
    {
        StationReader { skip_headers }
    }

    /// Reads one line of the catalog: `Ok(None)` for a line that is skipped,
    /// an error for one that is rejected.
    pub fn parse_station_line(&self, line: &str) -> (r: Result<
        Option<StationMetadata>,
        ProcessingError,
    >)
        ensures
            answers(r, station_of_line(line@)),
    {
        let chars = chars_of(line);
        station_of_chars(&chars)
    }

    /// The stations of the catalog, in the order of its lines.
    pub fn read_stations(&self, content: &str) -> (r: Vec<StationMetadata>)
        ensures
            station_views(r@) == stations_of_text(content@, self.skips_headers()),
    {
        let chars = chars_of(content);
        let all = lines(&chars);
        let ghost slines = lines_spec(content@);
        let mut stations: Vec<StationMetadata> = Vec::new();
        let mut i: usize = 0;
        assert(station_views(stations@) =~= Seq::<StationView>::empty());
        while i < all.len()
            invariant
                i <= all.len(),
                slines == all@.map_values(|l: Vec<char>| l@),
                station_views(stations@) == stations_of_lines(
                    slines,
                    self.skips_headers(),
                    i as int,
                ),
            decreases all.len() - i,
        {
            let line = &all[i];
            assert(slines[i as int] == line@);
            i += 1;
            if is_blank(line) {
                continue;
            }
            if self.skip_headers && !first_is_digit(line) {
                continue;
            }
            match station_of_chars(line) {
                Ok(Some(station)) => {
                    let ghost before = station_views(stations@);
                    let ghost added = station@;
                    stations.push(station);
                    assert(station_views(stations@) =~= before.push(added));
                },
                _ => {},
            }
        }
        stations
    }

    /// The stations of the catalog under their numbers; of several lines with
    /// one number the last counts.
    pub fn read_stations_map(&self, content: &str) -> (m: HashMap<u32, StationMetadata>)
        ensures
            is_lookup_of(m@, stations_of_text(content@, self.skips_headers())),
    {
        let stations = self.read_stations(content);
        stations_by_id(stations)
    }
}

/// The stations under their numbers; of several with one number the last
/// counts.
pub fn stations_by_id(stations: Vec<StationMetadata>) -> (m: HashMap<u32, StationMetadata>)
    ensures
        is_lookup_of(m@, station_views(stations@)),
{
    let mut m: HashMap<u32, StationMetadata> = HashMap::new();
    let ghost views = station_views(stations@);
    let mut i: usize = 0;
    assert(views.take(0) =~= Seq::<StationView>::empty());
    while i < stations.len()
        invariant
            i <= stations.len(),
            views == station_views(stations@),
            is_lookup_of(m@, views.take(i as int)),
        decreases stations.len() - i,
    {
        let station = stations[i].duplicate();
        proof {
            let next = views.take(i as int + 1);
            assert(next.drop_last() =~= views.take(i as int));
            assert(next.last() == station@);
        }
        m.insert(station.staid, station);
        i += 1;
    }
    assert(views.take(stations.len() as int) =~= views);
    m
}

} // verus!
