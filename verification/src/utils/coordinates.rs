//! Angles of latitude and longitude, read from degrees, minutes and seconds or
//! from decimal degrees.

use vstd::prelude::*;
use vstd::string::*;
use crate::error::ProcessingError;
use crate::models::date::{append_padded2, padded2};
use crate::utils::text::{
    all_digit_chars,
    all_digits,
    append_decimal,
    chars_of,
    contains_char,
    decimal_repr,
    decimal_value,
    digit_value,
    parse_digits,
    slice_of,
    split,
    split_spec,
    trim,
    trim_spec,
};

verus! {

/// An angle in whole micro-arcseconds: a degree is 3 600 000 000 of them. A
/// reading is the exact value of its text, rounded toward zero to a whole
/// micro-arcsecond.
#[derive(Debug, Clone, Copy, PartialEq, Eq, Structural)]
pub struct Coordinate {
    pub micro_arcsec: i64,
}

pub const MICRO_ARCSEC_PER_DEGREE: i64 = 3_600_000_000;

/// The greatest number of whole degrees whose micro-arcseconds a
/// `Coordinate` can hold.
pub const MAX_WHOLE_DEGREES: u64 = 2_562_047_788;

/// The position of the first `c` in `s`, or the length of `s`.
pub open spec fn index_of(s: Seq<char>, c: char) -> int
    decreases s.len(),
{
    if s.len() == 0 || s[0] == c {
        0
    } else {
        1 + index_of(s.drop_first(), c)
    }
}

/// `count` zeros.
pub open spec fn zeros(count: nat) -> Seq<char> {
    Seq::new(count, |i: int| '0')
}

/// Ten to the power of `n`.
pub open spec fn pow10(n: nat) -> nat
    decreases n,
{
    if n == 0 {
        1
    } else {
        10 * pow10((n - 1) as nat)
    }
}

/// A decimal number as it is written: whether it has a minus sign, and the
/// digits before and after its point.
pub struct DecimalText {
    pub negative: bool,
    pub whole: Seq<char>,
    pub frac: Seq<char>,
}

/// The decimal number that a text writes: an optional sign, digits, and an
/// optional point followed by any number of digits. The digits before the
/// point may be left out where digits follow it.
pub open spec fn decimal_text(s: Seq<char>) -> Option<DecimalText> {
    let negative = s.len() > 0 && s[0] == '-';
    let body = if s.len() > 0 && (s[0] == '+' || s[0] == '-') {
        s.drop_first()
    } else {
        s
    };
    let dot = index_of(body, '.');
    let whole = body.take(dot);
    let frac = if dot < body.len() {
        body.skip(dot + 1)
    } else {
        Seq::<char>::empty()
    };
    if all_digits(whole) && all_digits(frac) && whole.len() + frac.len() > 0 {
        Some(DecimalText { negative, whole, frac })
    } else {
        None
    }
}

/// A number without digits, which counts for nothing.
pub open spec fn no_number() -> DecimalText {
    DecimalText { negative: false, whole: Seq::empty(), frac: Seq::empty() }
}

/// Decimals written out to the given length.
pub open spec fn padded(frac: Seq<char>, len: nat) -> Seq<char> {
    frac + zeros((len - frac.len()) as nat)
}

pub open spec fn longest(a: nat, b: nat, c: nat) -> nat {
    if a >= b && a >= c {
        a
    } else if b >= c {
        b
    } else {
        c
    }
}

/// The micro-arcseconds of so many degrees, minutes and seconds, each given
/// by its digits.
pub open spec fn weighted(degrees: Seq<char>, minutes: Seq<char>, seconds: Seq<char>) -> nat {
    decimal_value(degrees) * 3_600_000_000 + decimal_value(minutes) * 60_000_000 + decimal_value(
        seconds,
    ) * 1_000_000
}

/// What the decimals of degrees, minutes and seconds add to an angle, in
/// whole micro-arcseconds: with the decimals written out to one length n,
/// their weighted value over ten to the power of n, rounded down.
pub open spec fn fraction_sum(degrees: Seq<char>, minutes: Seq<char>, seconds: Seq<char>) -> nat {
    let n = longest(degrees.len(), minutes.len(), seconds.len());
    (weighted(padded(degrees, n), padded(minutes, n), padded(seconds, n)) as int / pow10(n) as int) as nat
}

/// The angle of D degrees, M minutes and S seconds in micro-arcseconds,
/// signs aside: the exact value D + M/60 + S/3600 degrees, rounded toward
/// zero to a whole micro-arcsecond.
pub open spec fn exact_magnitude(d: DecimalText, m: DecimalText, s: DecimalText) -> nat {
    weighted(d.whole, m.whole, s.whole) + fraction_sum(d.frac, m.frac, s.frac)
}

/// Every character is a zero.
pub open spec fn all_zeros(s: Seq<char>) -> bool {
    forall|i: int| 0 <= i < s.len() ==> #[trigger] s[i] == '0'
}

/// At least 0 and under 60: the whole part is under 60, and a minus sign
/// stands before zero only.
pub open spec fn part_in_range(p: DecimalText) -> bool {
    decimal_value(p.whole) < 60 && (p.negative ==> decimal_value(p.whole) == 0 && all_zeros(p.frac))
}

/// The angle that a text in degrees, minutes and seconds writes: with D, M and
/// S its three numbers, |D| + M/60 + S/3600 degrees, rounded toward zero to a
/// whole micro-arcsecond, negative where the text begins with a minus sign.
/// Minutes and seconds are at least 0 and under 60. The only other bound is
/// that the micro-arcseconds fit a `Coordinate`.
pub open spec fn dms_spec(s: Seq<char>) -> Option<int> {
    let parts = split_spec(s, ':');
    if parts.len() != 3 {
        None
    } else {
        match (decimal_text(parts[0]), decimal_text(parts[1]), decimal_text(parts[2])) {
            (Some(d), Some(m), Some(sec)) => {
                if part_in_range(m) && part_in_range(sec) && exact_magnitude(d, m, sec)
                    <= i64::MAX {
                    if s.len() > 0 && s[0] == '-' {
                        Some(-(exact_magnitude(d, m, sec) as int))
                    } else {
                        Some(exact_magnitude(d, m, sec) as int)
                    }
                } else {
                    None
                }
            },
            _ => None,
        }
    }
}

/// The angle that a text in decimal degrees writes, rounded toward zero to a
/// whole micro-arcsecond, if that fits a `Coordinate`.
pub open spec fn decimal_degrees_spec(s: Seq<char>) -> Option<int> {
    match decimal_text(s) {
        Some(d) => if exact_magnitude(d, no_number(), no_number()) <= i64::MAX {
            if d.negative {
                Some(-(exact_magnitude(d, no_number(), no_number()) as int))
            } else {
                Some(exact_magnitude(d, no_number(), no_number()) as int)
            }
        } else {
            None
        },
        None => None,
    }
}

/// The angle that a text writes in either form: a text with a colon is read
/// as degrees, minutes and seconds, any other text as decimal degrees.
pub open spec fn angle_spec(s: Seq<char>) -> Option<int> {
    if s.contains(':') {
        dms_spec(s)
    } else {
        decimal_degrees_spec(s)
    }
}

/// The angle that a text writes in either form, white space around it aside.
pub open spec fn coordinate_spec(s: Seq<char>) -> Option<int> {
    angle_spec(trim_spec(s))
}

proof fn lemma_index_of(s: Seq<char>, c: char, i: int)
    requires
        0 <= i <= s.len(),
        forall|j: int| 0 <= j < i ==> s[j] != c,
        i == s.len() || s[i] == c,
    ensures
        index_of(s, c) == i,
    decreases i,
{
    if i > 0 {
        lemma_index_of(s.drop_first(), c, i - 1);
    }
}

proof fn lemma_pow10_positive(n: nat)
    ensures
        pow10(n) > 0,
    decreases n,
{
    if n > 0 {
        lemma_pow10_positive((n - 1) as nat);
    }
}

/// One more digit multiplies the value by ten and adds the digit.
proof fn lemma_prefix_value(p: Seq<char>, i: int)
    requires
        0 < i <= p.len(),
    ensures
        decimal_value(p.take(i)) == decimal_value(p.take(i - 1)) * 10 + digit_value(p[i - 1]),
{
    assert(p.take(i).drop_last() =~= p.take(i - 1));
    assert(p.take(i).last() == p[i - 1]);
}

/// A decimal number as it is written.
struct DecimalParts {
    negative: bool,
    whole: Vec<char>,
    frac: Vec<char>,
}

impl DecimalParts {
    spec fn written(&self) -> DecimalText {
        DecimalText { negative: self.negative, whole: self.whole@, frac: self.frac@ }
    }
}

fn parse_decimal(v: &Vec<char>) -> (r: Option<DecimalParts>)
    ensures
        match r {
            Some(p) => decimal_text(v@) == Some(p.written()),
            None => decimal_text(v@).is_none(),
        },
{
    let negative = v.len() > 0 && v[0] == '-';
    let from: usize = if v.len() > 0 && (v[0] == '+' || v[0] == '-') {
        1
    } else {
        0
    };
    let ghost body = v@.subrange(from as int, v.len() as int);
    proof {
        if from == 1 {
            assert(v@.drop_first() =~= body);
        } else {
            assert(v@ =~= body);
        }
    }
    let mut dot: usize = from;
    while dot < v.len() && v[dot] != '.'
        invariant
            from <= dot <= v.len(),
            body == v@.subrange(from as int, v.len() as int),
            forall|j: int| 0 <= j < dot - from ==> body[j] != '.',
        decreases v.len() - dot,
    {
        dot += 1;
    }
    proof {
        lemma_index_of(body, '.', dot - from);
    }
    let whole = slice_of(v, from, dot);
    assert(whole@ =~= body.take(dot - from));
    let frac: Vec<char> = if dot < v.len() {
        slice_of(v, dot + 1, v.len())
    } else {
        Vec::new()
    };
    assert(frac@ =~= if dot - from < body.len() {
        body.skip(dot - from + 1)
    } else {
        Seq::<char>::empty()
    });
    if !all_digit_chars(&whole) || !all_digit_chars(&frac) {
        return None;
    }
    if whole.len() == 0 && frac.len() == 0 {
        return None;
    }
    Some(DecimalParts { negative, whole, frac })
}

/// The value of digits, if it is at most `max`.
fn whole_value(whole: &Vec<char>, max: u64) -> (r: Option<u64>)
    requires
        all_digits(whole@),
        max <= 0x0FFF_FFFF_FFFF_FFFF,
    ensures
        match r {
            Some(v) => v == decimal_value(whole@) && v <= max,
            None => decimal_value(whole@) > max,
        },
{
    if whole.len() == 0 {
        return Some(0);
    }
    assert(whole@.subrange(0, whole.len() as int) =~= whole@);
    parse_digits(whole, 0, max)
}

fn all_zero_chars(v: &Vec<char>) -> (r: bool)
    ensures
        r == all_zeros(v@),
{
    let mut i: usize = 0;
    while i < v.len()
        invariant
            i <= v.len(),
            forall|j: int| 0 <= j < i ==> #[trigger] v@[j] == '0',
        decreases v.len() - i,
    {
        if v[i] != '0' {
            return false;
        }
        i += 1;
    }
    true
}

fn in_range(p: &DecimalParts) -> (r: bool)
    requires
        all_digits(p.written().whole),
    ensures
        r == part_in_range(p.written()),
{
    match whole_value(&p.whole, 59) {
        Some(w) => !p.negative || (w == 0 && all_zero_chars(&p.frac)),
        None => false,
    }
}

/// The digit at a place of decimals, zero behind their end.
spec fn digit_or_zero(frac: Seq<char>, k: int) -> nat {
    if k < frac.len() {
        digit_value(frac[k])
    } else {
        0
    }
}

fn digit_at(frac: &Vec<char>, k: usize) -> (d: u64)
    requires
        all_digits(frac@),
    ensures
        d == digit_or_zero(frac@, k as int),
        d <= 9,
{
    if k < frac.len() {
        let c = frac[k];
        assert(crate::utils::text::is_digit(frac@[k as int]));
        (c as u32 - '0' as u32) as u64
    } else {
        0
    }
}

proof fn lemma_padded_digit(frac: Seq<char>, n: nat, k: int)
    requires
        frac.len() <= n,
        0 <= k < n,
    ensures
        padded(frac, n).len() == n,
        digit_value(padded(frac, n)[k]) == digit_or_zero(frac, k),
{
}

/// What the decimals of degrees, minutes and seconds add to an angle. The
/// digits are taken from the last place to the first; of what the places
/// behind one add, only the whole part counts.
fn fraction_floor(degrees: &Vec<char>, minutes: &Vec<char>, seconds: &Vec<char>) -> (f: u64)
    requires
        all_digits(degrees@),
        all_digits(minutes@),
        all_digits(seconds@),
    ensures
        f == fraction_sum(degrees@, minutes@, seconds@),
        f <= 3_661_000_000,
{
    let n: usize = if degrees.len() >= minutes.len() && degrees.len() >= seconds.len() {
        degrees.len()
    } else if minutes.len() >= seconds.len() {
        minutes.len()
    } else {
        seconds.len()
    };
    let ghost pd = padded(degrees@, n as nat);
    let ghost pm = padded(minutes@, n as nat);
    let ghost ps = padded(seconds@, n as nat);
    let ghost total = weighted(pd, pm, ps);
    let mut f: u64 = 0;
    let mut i: usize = n;
    proof {
        assert(pd.take(n as int) =~= pd);
        assert(pm.take(n as int) =~= pm);
        assert(ps.take(n as int) =~= ps);
    }
    while i > 0
        invariant
            i <= n,
            n == longest(degrees@.len(), minutes@.len(), seconds@.len()),
            all_digits(degrees@),
            all_digits(minutes@),
            all_digits(seconds@),
            pd == padded(degrees@, n as nat),
            pm == padded(minutes@, n as nat),
            ps == padded(seconds@, n as nat),
            total == weighted(pd, pm, ps),
            total as int / pow10((n - i) as nat) as int == weighted(
                pd.take(i as int),
                pm.take(i as int),
                ps.take(i as int),
            ) + f,
            f <= 3_661_000_000,
        decreases i,
    {
        let k = i - 1;
        let dd = digit_at(degrees, k);
        let dm = digit_at(minutes, k);
        let ds = digit_at(seconds, k);
        let here: u64 = dd * 3_600_000_000 + dm * 60_000_000 + ds * 1_000_000;
        let next: u64 = (here + f) / 10;
        proof {
            lemma_padded_digit(degrees@, n as nat, k as int);
            lemma_padded_digit(minutes@, n as nat, k as int);
            lemma_padded_digit(seconds@, n as nat, k as int);
            lemma_prefix_value(pd, i as int);
            lemma_prefix_value(pm, i as int);
            lemma_prefix_value(ps, i as int);
            let before = weighted(pd.take(k as int), pm.take(k as int), ps.take(k as int));
            let now = weighted(pd.take(i as int), pm.take(i as int), ps.take(i as int));
            assert(now == before * 10 + here);
            let unit = pow10((n - i) as nat) as int;
            lemma_pow10_positive((n - i) as nat);
            assert(pow10((n - k) as nat) == 10 * pow10((n - i) as nat));
            vstd::arithmetic::div_mod::lemma_div_denominator(total as int, unit, 10);
            let q = total as int / unit;
            assert(q == before * 10 + here + f);
            assert(total as int / (unit * 10) == q / 10);
            assert(q / 10 == before + (here + f) / 10);
        }
        f = next;
        i = k;
    }
    proof {
        assert(pd.take(0) =~= Seq::<char>::empty());
        assert(pm.take(0) =~= Seq::<char>::empty());
        assert(ps.take(0) =~= Seq::<char>::empty());
    }
    f
}

/// The micro-arcseconds of degrees, minutes and seconds, if they fit.
fn magnitude_of(d: &DecimalParts, m: &DecimalParts, s: &DecimalParts) -> (r: Option<u64>)
    requires
        all_digits(d.written().whole) && all_digits(d.written().frac),
        all_digits(m.written().whole) && all_digits(m.written().frac),
        all_digits(s.written().whole) && all_digits(s.written().frac),
        decimal_value(m.written().whole) < 60,
        decimal_value(s.written().whole) < 60,
    ensures
        match r {
            Some(v) => v == exact_magnitude(d.written(), m.written(), s.written()) && v <= i64::MAX,
            None => exact_magnitude(d.written(), m.written(), s.written()) > i64::MAX,
        },
{
    let degrees = match whole_value(&d.whole, MAX_WHOLE_DEGREES) {
        Some(w) => w,
        None => {
            return None;
        },
    };
    let minutes = match whole_value(&m.whole, 59) {
        Some(w) => w,
        None => {
            return None;
        },
    };
    let seconds = match whole_value(&s.whole, 59) {
        Some(w) => w,
        None => {
            return None;
        },
    };
    let decimals = fraction_floor(&d.frac, &m.frac, &s.frac);
    let total: u64 = degrees * 3_600_000_000 + minutes * 60_000_000 + seconds * 1_000_000
        + decimals;
    if total > 0x7FFF_FFFF_FFFF_FFFF {
        None
    } else {
        Some(total)
    }
}

/// Reads an angle written as degrees, minutes and seconds, such as
/// `50:30:15` or `-0:07:39`. A text without a colon is read as decimal
/// degrees. The angle is rounded toward zero to a whole micro-arcsecond.
pub fn dms_to_decimal(dms: &str) -> (r: Result<Coordinate, ProcessingError>)
    ensures
        match r {
            Ok(c) => angle_spec(dms@) == Some(c.micro_arcsec as int),
            Err(e) => angle_spec(dms@).is_none() && e is InvalidCoordinate,
        },
{
    let v = chars_of(dms);
    angle_of_chars(&v)
}

fn signed(magnitude: u64, negative: bool) -> (c: Coordinate)
    requires
        magnitude <= i64::MAX,
    ensures
        c.micro_arcsec == if negative {
            -(magnitude as int)
        } else {
            magnitude as int
        },
{
    if negative {
        Coordinate { micro_arcsec: -(magnitude as i64) }
    } else {
        Coordinate { micro_arcsec: magnitude as i64 }
    }
}

fn angle_of_chars(v: &Vec<char>) -> (r: Result<Coordinate, ProcessingError>)
    ensures
        match r {
            Ok(c) => angle_spec(v@) == Some(c.micro_arcsec as int),
            Err(e) => angle_spec(v@).is_none() && e is InvalidCoordinate,
        },
{
    if contains_char(v, ':') {
        dms_of_chars(v)
    } else {
        let degrees = match parse_decimal(v) {
            Some(d) => d,
            None => {
                return Err(coordinate_error("Invalid coordinate value"));
            },
        };
        let nothing = DecimalParts { negative: false, whole: Vec::new(), frac: Vec::new() };
        assert(nothing.written() == no_number()) by {
            assert(nothing.written().whole =~= Seq::<char>::empty());
            assert(nothing.written().frac =~= Seq::<char>::empty());
        }
        match magnitude_of(&degrees, &nothing, &nothing) {
            Some(magnitude) => Ok(signed(magnitude, degrees.negative)),
            None => Err(coordinate_error("Coordinate value is too large")),
        }
    }
}

fn coordinate_error(text: &str) -> (e: ProcessingError)
    ensures
        e is InvalidCoordinate,
{
    ProcessingError::InvalidCoordinate(String::from_str(text))
}

fn dms_of_chars(v: &Vec<char>) -> (r: Result<Coordinate, ProcessingError>)
    ensures
        match r {
            Ok(c) => dms_spec(v@) == Some(c.micro_arcsec as int),
            Err(e) => dms_spec(v@).is_none() && e is InvalidCoordinate,
        },
{
    let parts = split(v, ':');
    let ghost sparts = split_spec(v@, ':');
    assert(parts@.map_values(|f: Vec<char>| f@) == sparts);
    if parts.len() != 3 {
        return Err(coordinate_error("Invalid DMS format. Expected format: 'DD:MM:SS'"));
    }
    assert(sparts[0] == parts@[0]@ && sparts[1] == parts@[1]@ && sparts[2] == parts@[2]@);
    let is_negative = v.len() > 0 && v[0] == '-';
    let degrees = match parse_decimal(&parts[0]) {
        Some(d) => d,
        None => {
            return Err(coordinate_error("Invalid degrees value"));
        },
    };
    let minutes = match parse_decimal(&parts[1]) {
        Some(m) => m,
        None => {
            return Err(coordinate_error("Invalid minutes value"));
        },
    };
    let seconds = match parse_decimal(&parts[2]) {
        Some(s) => s,
        None => {
            return Err(coordinate_error("Invalid seconds value"));
        },
    };
    if !in_range(&minutes) {
        return Err(coordinate_error("Minutes must be between 0 and 60"));
    }
    if !in_range(&seconds) {
        return Err(coordinate_error("Seconds must be between 0 and 60"));
    }
    match magnitude_of(&degrees, &minutes, &seconds) {
        Some(magnitude) => Ok(signed(magnitude, is_negative)),
        None => Err(coordinate_error("Degrees value is too large")),
    }
}

/// Reads an angle that is written either as degrees, minutes and seconds or as
/// decimal degrees.
pub fn parse_coordinate(coord_str: &str) -> (r: Result<Coordinate, ProcessingError>)
    ensures
        match r {
            Ok(c) => coordinate_spec(coord_str@) == Some(c.micro_arcsec as int),
            Err(e) => coordinate_spec(coord_str@).is_none() && e is InvalidCoordinate,
        },
{
    let v = chars_of(coord_str);
    coordinate_of_chars(&v)
}

/// Reads an angle from the characters of a field.
pub fn coordinate_of_chars(v: &Vec<char>) -> (r: Result<Coordinate, ProcessingError>)
    ensures
        match r {
            Ok(c) => coordinate_spec(v@) == Some(c.micro_arcsec as int),
            Err(e) => coordinate_spec(v@).is_none() && e is InvalidCoordinate,
        },
{
    let t = trim(v);
    angle_of_chars(&t)
}

/// South and north, west and east limits of the United Kingdom.
pub const UK_MIN_LAT: i64 = 178_200_000_000;

pub const UK_MAX_LAT: i64 = 219_600_000_000;

pub const UK_MIN_LON: i64 = -28_800_000_000;

pub const UK_MAX_LON: i64 = 7_200_000_000;

/// Latitude from 49.5 to 61 degrees, longitude from -8 to 2 degrees.
pub open spec fn within_uk_bounds(latitude: Coordinate, longitude: Coordinate) -> bool {
    UK_MIN_LAT <= latitude.micro_arcsec <= UK_MAX_LAT && UK_MIN_LON <= longitude.micro_arcsec
        <= UK_MAX_LON
}

/// Accepts a position inside the bounds of the United Kingdom.
pub fn validate_uk_coordinates(latitude: Coordinate, longitude: Coordinate) -> (r: Result<
    (),
    ProcessingError,
>)
    ensures
        r is Ok <==> within_uk_bounds(latitude, longitude),
        r matches Err(e) ==> e is InvalidCoordinate,
{
    if latitude.micro_arcsec < UK_MIN_LAT || latitude.micro_arcsec > UK_MAX_LAT {
        return Err(coordinate_error("Latitude is outside UK bounds [49.5, 61.0]"));
    }
    if longitude.micro_arcsec < UK_MIN_LON || longitude.micro_arcsec > UK_MAX_LON {
        return Err(coordinate_error("Longitude is outside UK bounds [-8.0, 2.0]"));
    }
    Ok(())
}

/// Degrees, minutes and seconds of an angle as `D:MM:SS.ss`, with a minus
/// sign for a negative angle; the seconds are rounded to hundredths.
pub open spec fn dms_text(c: int) -> Seq<char> {
    let magnitude = if c < 0 {
        (-c) as nat
    } else {
        c as nat
    };
    let degrees = magnitude / 3_600_000_000;
    let rest = magnitude % 3_600_000_000;
    let minutes = rest / 60_000_000;
    let hundredths = (rest % 60_000_000 + 5_000) / 10_000;
    let unsigned = decimal_repr(degrees) + seq![':'] + padded2(minutes) + seq![':'] + padded2(
        hundredths / 100,
    ) + seq!['.'] + padded2(hundredths % 100);
    if c < 0 {
        seq!['-'] + unsigned
    } else {
        unsigned
    }
}

/// Writes an angle as degrees, minutes and seconds.
pub fn decimal_to_dms(decimal: Coordinate) -> (s: String)
    ensures
        s@ == dms_text(decimal.micro_arcsec as int),
{
    let negative = decimal.micro_arcsec < 0;
    let magnitude: u64 = if negative {
        (-(decimal.micro_arcsec + 1)) as u64 + 1
    } else {
        decimal.micro_arcsec as u64
    };
    let degrees = magnitude / 3_600_000_000;
    let rest = magnitude % 3_600_000_000;
    let minutes = rest / 60_000_000;
    let hundredths = (rest % 60_000_000 + 5_000) / 10_000;
    let mut s = String::new();
    if negative {
        s.append("-");
    }
    append_decimal(&mut s, degrees);
    s.append(":");
    append_padded2(&mut s, minutes as u32);
    s.append(":");
    append_padded2(&mut s, (hundredths / 100) as u32);
    s.append(".");
    append_padded2(&mut s, (hundredths % 100) as u32);
    proof {
        reveal_strlit("-");
        reveal_strlit(":");
        reveal_strlit(".");
        assert(s@ =~= dms_text(decimal.micro_arcsec as int));
    }
    s
}

impl Coordinate {
    /// The angle of so many millionths of a degree.
    pub fn from_micro_degrees(value: i32) -> (c: Coordinate)
        ensures
            c.micro_arcsec == value * 3600,
    {
        Coordinate { micro_arcsec: (value as i64) * 3600 }
    }
}

} // verus!
