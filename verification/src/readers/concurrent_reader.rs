//! The temperature files of the three per-type directories of stations.

use vstd::prelude::*;
use vstd::string::*;
use std::collections::HashMap;
use crate::archive::ArchiveEntry;
use crate::archive::inspector::{entry_views, EntryView};
use crate::error::ProcessingError;
use crate::models::station::{names_united_kingdom, StationMetadata};
use crate::models::temperature::TemperatureRecord;
use crate::processors::data_merger::TemperatureData;
use crate::readers::station_reader::{is_lookup_of, stations_of_text, StationReader};
use crate::readers::temperature_reader::{observations_of, observations_of_text};
use crate::utils::text::{
    chars_of,
    ends_with,
    ends_with_spec,
    equals_str,
    parse_unsigned,
    parse_unsigned_spec,
    slice_of,
    starts_with,
    starts_with_spec,
    strip_zeros,
    strip_zeros_spec,
};

verus! {

/// The temperature rows of one station.
#[derive(Debug, Clone)]
pub struct StationTemperatureData {
    pub station_id: u32,
    pub min_temperatures: Vec<TemperatureRecord>,
    pub max_temperatures: Vec<TemperatureRecord>,
    pub avg_temperatures: Vec<TemperatureRecord>,
}

/// Reads the temperature files of stations.
pub struct ConcurrentReader {
    max_workers: usize,
}

/// The file prefix of the files of a per-type directory.
pub open spec fn prefix_of_directory(name: Seq<char>) -> Option<Seq<char>> {
    if name == "uk_temp_min"@ {
        Some("TN"@)
    } else if name == "uk_temp_max"@ {
        Some("TX"@)
    } else if name == "uk_temp_avg"@ {
        Some("TG"@)
    } else {
        None
    }
}

/// The station number of a file named `{prefix}_STAID{number}.txt`: what
/// stands between `_STAID` and the ending is, without its leading zeros, a
/// number.
pub open spec fn station_of_prefixed_name(name: Seq<char>, prefix: Seq<char>) -> Option<u32> {
    let head = prefix + "_STAID"@;
    if starts_with_spec(name, head) && ends_with_spec(name, ".txt"@) && name.len() >= head.len()
        + 4 {
        match parse_unsigned_spec(
            strip_zeros_spec(name.subrange(head.len() as int, name.len() - 4)),
            u32::MAX as nat,
        ) {
            Some(n) => Some(n as u32),
            None => None,
        }
    } else {
        None
    }
}

/// Whether a file is the temperature file of a station that the catalog
/// places in the United Kingdom.
pub open spec fn is_station_file(
    name: Seq<char>,
    prefix: Seq<char>,
    stations: Map<u32, StationMetadata>,
) -> bool {
    match station_of_prefixed_name(name, prefix) {
        Some(id) => stations.contains_key(id) && names_united_kingdom(stations[id].country@),
        None => false,
    }
}

/// The rows of the station files among the first `count` files, in the order
/// of the files; each file is read for the station of its name.
pub open spec fn rows_of_files(
    files: Seq<EntryView>,
    prefix: Seq<char>,
    stations: Map<u32, StationMetadata>,
    count: int,
) -> Seq<TemperatureRecord>
    decreases count,
{
    if count <= 0 {
        Seq::empty()
    } else {
        let before = rows_of_files(files, prefix, stations, count - 1);
        let f = files[count - 1];
        if is_station_file(f.name, prefix, stations) {
            before + observations_of_text(
                f.content,
                station_of_prefixed_name(f.name, prefix)->0,
                true,
            )
        } else {
            before
        }
    }
}

/// The rows that the file of a station gives, if the file is there. The file
/// is named after the station, so there is no reading it for station 0.
pub open spec fn rows_of_station(content: Option<Seq<char>>, station_id: u32) -> Option<
    Seq<TemperatureRecord>,
> {
    match content {
        Some(text) => if station_id == 0 {
            None
        } else {
            Some(observations_of_text(text, station_id, true))
        },
        None => Some(Seq::empty()),
    }
}

fn station_of_prefixed(name: &Vec<char>, prefix: &str) -> (r: Option<u32>)
    ensures
        r == station_of_prefixed_name(name@, prefix@),
{
    let mut head = String::from_str(prefix);
    head.append("_STAID");
    let head = chars_of(head.as_str());
    proof {
        reveal_strlit(".txt");
    }
    if !starts_with_chars(name, &head) || !ends_with(name, ".txt") {
        return None;
    }
    let n = name.len();
    if n - head.len() < 4 {
        return None;
    }
    let digits = slice_of(name, head.len(), n - 4);
    let digits = strip_zeros(&digits);
    match parse_unsigned(&digits, u32::MAX as u64) {
        Some(v) => Some(v as u32),
        None => None,
    }
}

fn starts_with_chars(s: &Vec<char>, head: &Vec<char>) -> (r: bool)
    ensures
        r == starts_with_spec(s@, head@),
{
    crate::utils::text::matches_at_exec(s, head, 0)
}

fn append_rows(all: &mut Vec<TemperatureRecord>, rows: &Vec<TemperatureRecord>)
    ensures
        final(all)@ == old(all)@ + rows@,
{
    let mut i: usize = 0;
    assert(rows@.take(0) =~= Seq::<TemperatureRecord>::empty());
    assert(all@ + Seq::<TemperatureRecord>::empty() =~= all@);
    while i < rows.len()
        invariant
            i <= rows.len(),
            all@ == old(all)@ + rows@.take(i as int),
        decreases rows.len() - i,
    {
        all.push(rows[i]);
        assert(all@ =~= old(all)@ + rows@.take(i as int + 1));
        i += 1;
    }
    assert(rows@.take(rows.len() as int) =~= rows@);
}

impl ConcurrentReader {
    pub closed spec fn workers(&self) -> usize {
        self.max_workers
    }

    pub fn new(max_workers: usize) -> (r: ConcurrentReader)
        ensures
            r.workers() == max_workers,
    {
        ConcurrentReader { max_workers }
    }

    /// How many workers may read files at a time.
    pub fn max_workers(&self) -> (n: usize)
        ensures
            n == self.workers(),
    {
        self.max_workers
    }

    /// The file prefix of the files of a per-type directory.
    pub fn file_prefix_of_directory(dir_name: &str) -> (r: Result<&'static str, ProcessingError>)
        ensures
            match r {
                Ok(p) => prefix_of_directory(dir_name@) == Some(p@),
                Err(e) => prefix_of_directory(dir_name@).is_none() && e is InvalidFormat,
            },
    {
        let name = chars_of(dir_name);
        if equals_str(&name, "uk_temp_min") {
            Ok("TN")
        } else if equals_str(&name, "uk_temp_max") {
            Ok("TX")
        } else if equals_str(&name, "uk_temp_avg") {
            Ok("TG")
        } else {
            let mut message = String::from_str("Unknown temperature directory: ");
            message.append(dir_name);
            Err(ProcessingError::InvalidFormat(message))
        }
    }

    /// Whether a file of a per-type directory is the temperature file of a
    /// station of the United Kingdom.
    pub fn is_temperature_file(
        file_name: &str,
        file_prefix: &str,
        stations: &HashMap<u32, StationMetadata>,
    ) -> (r: bool)
        ensures
            r == is_station_file(file_name@, file_prefix@, stations@),
    {
        let name = chars_of(file_name);
        match station_of_prefixed(&name, file_prefix) {
            Some(id) => match stations.get(&id) {
                Some(station) => station.is_uk_station(),
                None => false,
            },
            None => false,
        }
    }

    /// The rows of the station files of one per-type directory.
    pub fn read_temperature_type(
        files: &Vec<ArchiveEntry>,
        file_prefix: &str,
        stations: &HashMap<u32, StationMetadata>,
    ) -> (rows: Vec<TemperatureRecord>)
        ensures
            rows@ == rows_of_files(
                entry_views(files@),
                file_prefix@,
                stations@,
                files@.len() as int,
            ),
    {
        let ghost views = entry_views(files@);
        let mut rows: Vec<TemperatureRecord> = Vec::new();
        let mut i: usize = 0;
        while i < files.len()
            invariant
                i <= files.len(),
                views == entry_views(files@),
                rows@ == rows_of_files(views, file_prefix@, stations@, i as int),
            decreases files.len() - i,
        {
            let file = &files[i];
            assert(views[i as int] == file@);
            let name = chars_of(file.name.as_str());
            match station_of_prefixed(&name, file_prefix) {
                Some(id) => {
                    let known = match stations.get(&id) {
                        Some(station) => station.is_uk_station(),
                        None => false,
                    };
                    if known {
                        let more = observations_of(file.content.as_str(), id, true);
                        append_rows(&mut rows, &more);
                    }
                },
                None => {},
            }
            i += 1;
        }
        rows
    }

    /// The stations of the catalog and the rows of their files in the three
    /// per-type directories.
    pub fn read_all_temperature_data(
        &self,
        catalog: &str,
        min_files: &Vec<ArchiveEntry>,
        max_files: &Vec<ArchiveEntry>,
        avg_files: &Vec<ArchiveEntry>,
    ) -> (data: TemperatureData)
        ensures
            is_lookup_of(data.stations@, stations_of_text(catalog@, true)),
            data.min_temperatures@ == rows_of_files(
                entry_views(min_files@),
                "TN"@,
                data.stations@,
                min_files@.len() as int,
            ),
            data.max_temperatures@ == rows_of_files(
                entry_views(max_files@),
                "TX"@,
                data.stations@,
                max_files@.len() as int,
            ),
            data.avg_temperatures@ == rows_of_files(
                entry_views(avg_files@),
                "TG"@,
                data.stations@,
                avg_files@.len() as int,
            ),
    {
        let stations = StationReader::new().read_stations_map(catalog);
        let min_temperatures = Self::read_temperature_type(min_files, "TN", &stations);
        let max_temperatures = Self::read_temperature_type(max_files, "TX", &stations);
        let avg_temperatures = Self::read_temperature_type(avg_files, "TG", &stations);
        TemperatureData { stations, min_temperatures, max_temperatures, avg_temperatures }
    }

    /// The rows of one station from the texts of its three files, as far as
    /// the files are there.
    pub fn process_station_data(
        &self,
        station_id: u32,
        min_content: Option<&str>,
        max_content: Option<&str>,
        avg_content: Option<&str>,
    ) -> (r: Result<StationTemperatureData, ProcessingError>)
        ensures
            ({
                let text = |c: Option<&str>|
                    match c {
                        Some(t) => Some(t@),
                        None => None::<Seq<char>>,
                    };
                match r {
                    Ok(data) => data.station_id == station_id && rows_of_station(
                        text(min_content),
                        station_id,
                    ) == Some(data.min_temperatures@) && rows_of_station(
                        text(max_content),
                        station_id,
                    ) == Some(data.max_temperatures@) && rows_of_station(
                        text(avg_content),
                        station_id,
                    ) == Some(data.avg_temperatures@),
                    Err(e) => e is InvalidFormat && (rows_of_station(text(min_content), station_id)
                        is None || rows_of_station(text(max_content), station_id) is None
                        || rows_of_station(text(avg_content), station_id) is None),
                }
            }),
    {
        let min_temperatures = match Self::station_rows(min_content, station_id) {
            Ok(rows) => rows,
            Err(e) => {
                return Err(e);
            },
        };
        let max_temperatures = match Self::station_rows(max_content, station_id) {
            Ok(rows) => rows,
            Err(e) => {
                return Err(e);
            },
        };
        let avg_temperatures = match Self::station_rows(avg_content, station_id) {
            Ok(rows) => rows,
            Err(e) => {
                return Err(e);
            },
        };
        Ok(StationTemperatureData { station_id, min_temperatures, max_temperatures, avg_temperatures })
    }

    fn station_rows(content: Option<&str>, station_id: u32) -> (r: Result<
        Vec<TemperatureRecord>,
        ProcessingError,
    >)
        ensures
            match r {
                Ok(rows) => rows_of_station(
                    match content {
                        Some(t) => Some(t@),
                        None => None::<Seq<char>>,
                    },
                    station_id,
                ) == Some(rows@),
                Err(e) => e is InvalidFormat && rows_of_station(
                    match content {
                        Some(t) => Some(t@),
                        None => None::<Seq<char>>,
                    },
                    station_id,
                ) is None,
            },
    {
        match content {
            Some(text) => {
                if station_id == 0 {
                    Err(
                        ProcessingError::InvalidFormat(
                            String::from_str("Could not extract station ID from filename"),
                        ),
                    )
                } else {
                    Ok(observations_of(text, station_id, true))
                }
            },
            None => Ok(Vec::new()),
        }
    }
}

} // verus!
