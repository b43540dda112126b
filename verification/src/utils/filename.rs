//! The default names of output files.

use vstd::prelude::*;
use vstd::string::*;
use crate::models::date::{padded2, Date};

verus! {

/// The last two digits of a year.
pub open spec fn short_year(year: i32) -> nat {
    if year >= 0 {
        (year % 100) as nat
    } else {
        ((-year) % 100) as nat
    }
}

/// Year, month and day in two digits each.
pub open spec fn compact_day(day: Date) -> Seq<char> {
    padded2(short_year(day.year)) + padded2(day.month as nat) + padded2(day.day as nat)
}

/// `output/ecad-weather-YYMMDD.parquet` for the given day.
pub open spec fn default_name(day: Date) -> Seq<char> {
    "output/ecad-weather-"@ + compact_day(day) + ".parquet"@
}

/// `output/ecad-weather-unified-YYMMDD.parquet` for the given day.
pub open spec fn default_unified_name(day: Date) -> Seq<char> {
    "output/ecad-weather-unified-"@ + compact_day(day) + ".parquet"@
}

fn append_compact_day(s: &mut String, day: Date)
    ensures
        final(s)@ == old(s)@ + compact_day(day),
{
    let year: u32 = if day.year >= 0 {
        (day.year % 100) as u32
    } else {
        ((-(day.year as i64)) % 100) as u32
    };
    crate::models::date::append_padded2(s, year);
    crate::models::date::append_padded2(s, day.month);
    crate::models::date::append_padded2(s, day.day);
    assert(final(s)@ =~= old(s)@ + compact_day(day));
}

/// The default path of the output of one archive, for the day of the run.
pub fn generate_default_parquet_filename(today: Date) -> (s: String)
    ensures
        s@ == default_name(today),
{
    let mut s = String::from_str("output/ecad-weather-");
    append_compact_day(&mut s, today);
    s.append(".parquet");
    assert(s@ =~= default_name(today));
    s
}

/// The default path of the unified output, for the day of the run.
pub fn generate_default_unified_parquet_filename(today: Date) -> (s: String)
    ensures
        s@ == default_unified_name(today),
{
    let mut s = String::from_str("output/ecad-weather-unified-");
    append_compact_day(&mut s, today);
    s.append(".parquet");
    assert(s@ =~= default_unified_name(today));
    s
}

} // verus!
