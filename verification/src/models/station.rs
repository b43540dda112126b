//! Stations of the catalog.

use vstd::prelude::*;
use vstd::string::*;
use crate::error::ProcessingError;
use crate::utils::coordinates::{within_uk_bounds, Coordinate};
use crate::utils::text::chars_of;

verus! {

/// A station as the catalog describes it.
#[derive(Debug, Clone)]
pub struct StationMetadata {
    pub staid: u32,
    pub name: String,
    pub country: String,
    pub latitude: Coordinate,
    pub longitude: Coordinate,
    /// Metres above sea level, where the catalog gives them.
    pub elevation: Option<i32>,
}

/// A station with its texts as sequences of characters.
pub struct StationView {
    pub staid: u32,
    pub name: Seq<char>,
    pub country: Seq<char>,
    pub latitude: Coordinate,
    pub longitude: Coordinate,
    pub elevation: Option<i32>,
}

impl View for StationMetadata {
    type V = StationView;

    open spec fn view(&self) -> StationView {
        StationView {
            staid: self.staid,
            name: self.name@,
            country: self.country@,
            latitude: self.latitude,
            longitude: self.longitude,
            elevation: self.elevation,
        }
    }
}

/// 90 and 180 degrees in micro-arcseconds.
pub const MAX_LATITUDE: i64 = 324_000_000_000;

pub const MAX_LONGITUDE: i64 = 648_000_000_000;

pub open spec fn latitude_in_range(c: Coordinate) -> bool {
    -MAX_LATITUDE <= c.micro_arcsec <= MAX_LATITUDE
}

pub open spec fn longitude_in_range(c: Coordinate) -> bool {
    -MAX_LONGITUDE <= c.micro_arcsec <= MAX_LONGITUDE
}

pub fn latitude_ok(c: Coordinate) -> (r: bool)
    ensures
        r == latitude_in_range(c),
{
    -MAX_LATITUDE <= c.micro_arcsec && c.micro_arcsec <= MAX_LATITUDE
}

pub fn longitude_ok(c: Coordinate) -> (r: bool)
    ensures
        r == longitude_in_range(c),
{
    -MAX_LONGITUDE <= c.micro_arcsec && c.micro_arcsec <= MAX_LONGITUDE
}

/// The capital letter that a character stands for when case is set aside:
/// the letter itself, its small form, and the two other characters that
/// turn into a letter of the alphabet when written in capitals.
pub open spec fn capital_of(c: char) -> char {
    if 'a' <= c <= 'z' {
        ((c as u32 - 32) as u8) as char
    } else if c == '\u{131}' {
        'I'
    } else if c == '\u{17f}' {
        'S'
    } else {
        c
    }
}

/// Whether `s`, written in capitals, is the text `capitals`.
pub open spec fn equals_in_capitals(s: Seq<char>, capitals: Seq<char>) -> bool {
    s.len() == capitals.len() && forall|i: int|
        0 <= i < s.len() ==> capital_of(#[trigger] s[i]) == capitals[i]
}

/// A country text that names the United Kingdom.
pub open spec fn names_united_kingdom(country: Seq<char>) -> bool {
    equals_in_capitals(country, "GB"@) || equals_in_capitals(country, "UK"@) || equals_in_capitals(
        country,
        "UNITED KINGDOM"@,
    )
}

fn capital(c: char) -> (r: char)
    ensures
        r == capital_of(c),
{
    if 'a' <= c && c <= 'z' {
        ((c as u32 - 32) as u8) as char
    } else if c == '\u{131}' {
        'I'
    } else if c == '\u{17f}' {
        'S'
    } else {
        c
    }
}

fn equals_ignoring_case(s: &Vec<char>, capitals: &str) -> (r: bool)
    ensures
        r == equals_in_capitals(s@, capitals@),
{
    let caps = chars_of(capitals);
    if s.len() != caps.len() {
        return false;
    }
    let mut i: usize = 0;
    while i < s.len()
        invariant
            i <= s.len(),
            s.len() == caps.len(),
            caps@ == capitals@,
            forall|j: int| 0 <= j < i ==> capital_of(#[trigger] s@[j]) == caps@[j],
        decreases s.len() - i,
    {
        if capital(s[i]) != caps[i] {
            return false;
        }
        i += 1;
    }
    true
}

impl StationMetadata {
    pub fn new(
        staid: u32,
        name: String,
        country: String,
        latitude: Coordinate,
        longitude: Coordinate,
        elevation: Option<i32>,
    ) -> (r: StationMetadata)
        ensures
            r@ == (StationView {
                staid,
                name: name@,
                country: country@,
                latitude,
                longitude,
                elevation,
            }),
    {
        StationMetadata { staid, name, country, latitude, longitude, elevation }
    }

    /// A copy of the station.
    pub fn duplicate(&self) -> (r: StationMetadata)
        ensures
            r@ == self@,
    {
        StationMetadata {
            staid: self.staid,
            name: self.name.clone(),
            country: self.country.clone(),
            latitude: self.latitude,
            longitude: self.longitude,
            elevation: self.elevation,
        }
    }

    /// The country is given as GB, UK or United Kingdom, in any case.
    pub fn is_uk_station(&self) -> (r: bool)
        ensures
            r == names_united_kingdom(self.country@),
    {
        let c = chars_of(self.country.as_str());
        equals_ignoring_case(&c, "GB") || equals_ignoring_case(&c, "UK") || equals_ignoring_case(
            &c,
            "UNITED KINGDOM",
        )
    }

    pub fn is_within_uk_bounds(&self) -> (r: bool)
        ensures
            r == within_uk_bounds(self.latitude, self.longitude),
    {
        self.latitude.micro_arcsec >= crate::utils::coordinates::UK_MIN_LAT
            && self.latitude.micro_arcsec <= crate::utils::coordinates::UK_MAX_LAT
            && self.longitude.micro_arcsec >= crate::utils::coordinates::UK_MIN_LON
            && self.longitude.micro_arcsec <= crate::utils::coordinates::UK_MAX_LON
    }

    /// The name is not empty and the position lies on the globe.
    pub open spec fn is_well_formed(self) -> bool {
        self.name@.len() >= 1 && latitude_in_range(self.latitude) && longitude_in_range(
            self.longitude,
        )
    }

    /// Accepts a station with a name and a position on the globe.
    pub fn validate(&self) -> (r: Result<(), ProcessingError>)
        ensures
            r is Ok <==> self.is_well_formed(),
            r matches Err(e) ==> e is Validation,
    {
        if self.name.as_str().unicode_len() < 1 {
            return Err(ProcessingError::Validation(String::from_str("name")));
        }
        if !latitude_ok(self.latitude) {
            return Err(ProcessingError::Validation(String::from_str("latitude")));
        }
        if !longitude_ok(self.longitude) {
            return Err(ProcessingError::Validation(String::from_str("longitude")));
        }
        Ok(())
    }
}

} // verus!
