//! Character-level text handling: trimming, splitting, searching and decimal
//! numbers, each with its meaning stated over `Seq<char>`.

use vstd::prelude::*;

verus! {

/// Characters that count as white space when a field is trimmed.
pub open spec fn is_whitespace(c: char) -> bool {
    let n = c as u32;
    (0x09 <= n <= 0x0D) || n == 0x20 || n == 0x85 || n == 0xA0 || n == 0x1680 || (0x2000 <= n
        <= 0x200A) || n == 0x2028 || n == 0x2029 || n == 0x202F || n == 0x205F || n == 0x3000
}

pub open spec fn is_digit(c: char) -> bool {
    '0' <= c <= '9'
}

pub open spec fn digit_value(c: char) -> nat
    recommends
        is_digit(c),
{
    (c as u32 - '0' as u32) as nat
}

pub open spec fn is_alphabetic_ascii(c: char) -> bool {
    ('a' <= c <= 'z') || ('A' <= c <= 'Z')
}

pub open spec fn all_digits(s: Seq<char>) -> bool {
    forall|i: int| 0 <= i < s.len() ==> is_digit(#[trigger] s[i])
}

/// The text without its leading white space.
pub open spec fn trim_start_spec(s: Seq<char>) -> Seq<char>
    decreases s.len(),
{
    if s.len() > 0 && is_whitespace(s[0]) {
        trim_start_spec(s.drop_first())
    } else {
        s
    }
}

/// The text without its trailing white space.
pub open spec fn trim_end_spec(s: Seq<char>) -> Seq<char>
    decreases s.len(),
{
    if s.len() > 0 && is_whitespace(s.last()) {
        trim_end_spec(s.drop_last())
    } else {
        s
    }
}

/// The text without leading and trailing white space.
pub open spec fn trim_spec(s: Seq<char>) -> Seq<char> {
    trim_end_spec(trim_start_spec(s))
}

/// The fields of `s` between occurrences of `sep`, read left to right: an
/// empty text has one empty field, and each separator opens a new field.
pub open spec fn split_spec(s: Seq<char>, sep: char) -> Seq<Seq<char>>
    decreases s.len(),
{
    if s.len() == 0 {
        seq![Seq::<char>::empty()]
    } else {
        let before = split_spec(s.drop_last(), sep);
        if s.last() == sep {
            before.push(Seq::<char>::empty())
        } else {
            before.update(before.len() - 1, before.last().push(s.last()))
        }
    }
}

/// The fields of `s`, each trimmed.
pub open spec fn trimmed_fields(s: Seq<char>, sep: char) -> Seq<Seq<char>> {
    split_spec(s, sep).map_values(|f: Seq<char>| trim_spec(f))
}

/// The lines of a text: what stands before each line feed, without a
/// carriage return that ends it, and what follows the last line feed unless
/// that is empty.
pub open spec fn lines_spec(s: Seq<char>) -> Seq<Seq<char>> {
    let parts = split_spec(s, '\n');
    let ended = parts.drop_last().map_values(|l: Seq<char>| strip_carriage_return(l));
    if parts.last().len() == 0 {
        ended
    } else {
        ended.push(parts.last())
    }
}

pub open spec fn strip_carriage_return(l: Seq<char>) -> Seq<char> {
    if l.len() > 0 && l.last() == '\r' {
        l.drop_last()
    } else {
        l
    }
}

/// Whether `pat` stands in `s` at position `i`.
pub open spec fn matches_at(s: Seq<char>, pat: Seq<char>, i: int) -> bool {
    0 <= i && i + pat.len() <= s.len() && s.subrange(i, i + pat.len()) == pat
}

/// The first position at or after `from` where `pat` stands in `s`, or -1.
pub open spec fn find_from(s: Seq<char>, pat: Seq<char>, from: int) -> int
    decreases s.len() - from + 1,
{
    if from < 0 || from + pat.len() > s.len() {
        -1
    } else if matches_at(s, pat, from) {
        from
    } else {
        find_from(s, pat, from + 1)
    }
}

/// The first position where `pat` stands in `s`, or -1.
pub open spec fn find_spec(s: Seq<char>, pat: Seq<char>) -> int {
    find_from(s, pat, 0)
}

pub open spec fn contains_spec(s: Seq<char>, pat: Seq<char>) -> bool {
    find_spec(s, pat) >= 0
}

pub open spec fn starts_with_spec(s: Seq<char>, pat: Seq<char>) -> bool {
    matches_at(s, pat, 0)
}

pub open spec fn ends_with_spec(s: Seq<char>, pat: Seq<char>) -> bool {
    matches_at(s, pat, s.len() - pat.len())
}

/// The number that a text of decimal digits writes.
pub open spec fn decimal_value(s: Seq<char>) -> nat
    decreases s.len(),
{
    if s.len() == 0 {
        0
    } else {
        decimal_value(s.drop_last()) * 10 + digit_value(s.last())
    }
}

/// An unsigned decimal number: an optional `+`, then at least one digit, the
/// value at most `max`.
pub open spec fn parse_unsigned_spec(s: Seq<char>, max: nat) -> Option<nat> {
    let body = if s.len() > 0 && s[0] == '+' {
        s.drop_first()
    } else {
        s
    };
    digits_spec(body, max)
}

/// A signed decimal number: an optional `+` or `-`, then at least one digit,
/// the value between `min` and `max`.
pub open spec fn parse_signed_spec(s: Seq<char>, min: int, max: int) -> Option<int> {
    let negative = s.len() > 0 && s[0] == '-';
    let body = if s.len() > 0 && (s[0] == '+' || s[0] == '-') {
        s.drop_first()
    } else {
        s
    };
    let value = if negative {
        -(decimal_value(body) as int)
    } else {
        decimal_value(body) as int
    };
    if body.len() > 0 && all_digits(body) && min <= value <= max {
        Some(value)
    } else {
        None
    }
}

/// The decimal digits of `n`, without leading zeros.
pub open spec fn decimal_repr(n: nat) -> Seq<char>
    decreases n,
{
    if n < 10 {
        seq![digit_char(n)]
    } else {
        decimal_repr(n / 10).push(digit_char(n % 10))
    }
}

/// A number of tenths as a decimal number with one decimal, such as `12.5`
/// for 125 and `-0.3` for -3.
pub open spec fn tenths_repr(v: int) -> Seq<char> {
    let magnitude = if v < 0 {
        (-v) as nat
    } else {
        v as nat
    };
    let unsigned = decimal_repr(magnitude / 10) + seq!['.', digit_char(magnitude % 10)];
    if v < 0 {
        seq!['-'] + unsigned
    } else {
        unsigned
    }
}

pub open spec fn digit_char(d: nat) -> char {
    if d == 0 {
        '0'
    } else if d == 1 {
        '1'
    } else if d == 2 {
        '2'
    } else if d == 3 {
        '3'
    } else if d == 4 {
        '4'
    } else if d == 5 {
        '5'
    } else if d == 6 {
        '6'
    } else if d == 7 {
        '7'
    } else if d == 8 {
        '8'
    } else {
        '9'
    }
}

pub fn is_whitespace_char(c: char) -> (b: bool)
    ensures
        b == is_whitespace(c),
{
    let n: u32 = c as u32;
    (0x09 <= n && n <= 0x0D) || n == 0x20 || n == 0x85 || n == 0xA0 || n == 0x1680 || (0x2000 <= n
        && n <= 0x200A) || n == 0x2028 || n == 0x2029 || n == 0x202F || n == 0x205F || n == 0x3000
}

pub fn is_digit_char(c: char) -> (b: bool)
    ensures
        b == is_digit(c),
{
    '0' <= c && c <= '9'
}

/// Whether every character is a digit.
pub fn all_digit_chars(v: &Vec<char>) -> (r: bool)
    ensures
        r == all_digits(v@),
{
    let mut i: usize = 0;
    while i < v.len()
        invariant
            i <= v.len(),
            forall|j: int| 0 <= j < i ==> is_digit(#[trigger] v@[j]),
        decreases v.len() - i,
    {
        if !is_digit_char(v[i]) {
            return false;
        }
        i += 1;
    }
    true
}

pub fn is_alphabetic_char(c: char) -> (b: bool)
    ensures
        b == is_alphabetic_ascii(c),
{
    ('a' <= c && c <= 'z') || ('A' <= c && c <= 'Z')
}

/// The characters of a string.
pub fn chars_of(s: &str) -> (v: Vec<char>)
    ensures
        v@ == s@,
{
    let mut v: Vec<char> = Vec::new();
    for c in it: s.chars()
        invariant
            v@ == it.seq().take(it.index() as int),
    {
        v.push(c);
    }
    v
}

/// `String::push` of std: appends one character to the string.
#[verifier::external_body]
fn string_push(s: &mut String, c: char)
    ensures
        final(s)@ == old(s)@.push(c),
{
    s.push(c)
}

/// The string that holds the given characters.
pub fn string_of(v: &Vec<char>) -> (s: String)
    ensures
        s@ == v@,
{
    let mut s = String::new();
    let mut i: usize = 0;
    while i < v.len()
        invariant
            i <= v.len(),
            s@ == v@.take(i as int),
        decreases v.len() - i,
    {
        string_push(&mut s, v[i]);
        i += 1;
    }
    s
}

/// The characters of `v` from `from` up to `to`.
pub fn slice_of(v: &Vec<char>, from: usize, to: usize) -> (r: Vec<char>)
    requires
        from <= to <= v.len(),
    ensures
        r@ == v@.subrange(from as int, to as int),
{
    let mut r: Vec<char> = Vec::new();
    let mut i: usize = from;
    while i < to
        invariant
            from <= i <= to <= v.len(),
            r@ == v@.subrange(from as int, i as int),
        decreases to - i,
    {
        r.push(v[i]);
        i += 1;
    }
    r
}

pub fn seq_equal(a: &Vec<char>, b: &Vec<char>) -> (r: bool)
    ensures
        r == (a@ == b@),
{
    if a.len() != b.len() {
        return false;
    }
    let mut i: usize = 0;
    while i < a.len()
        invariant
            i <= a.len(),
            a.len() == b.len(),
            forall|j: int| 0 <= j < i ==> a@[j] == b@[j],
        decreases a.len() - i,
    {
        if a[i] != b[i] {
            return false;
        }
        i += 1;
    }
    assert(a@ =~= b@);
    true
}

/// Whether the characters are those of the given string.
pub fn equals_str(a: &Vec<char>, lit: &str) -> (r: bool)
    ensures
        r == (a@ == lit@),
{
    let b = chars_of(lit);
    seq_equal(a, &b)
}

pub fn trim(v: &Vec<char>) -> (r: Vec<char>)
    ensures
        r@ == trim_spec(v@),
{
    let n = v.len();
    let mut start: usize = 0;
    assert(v@.subrange(0, n as int) =~= v@);
    while start < n && is_whitespace_char(v[start])
        invariant
            start <= n == v.len(),
            trim_start_spec(v@) == trim_start_spec(v@.subrange(start as int, n as int)),
        decreases n - start,
    {
        proof {
            let cur = v@.subrange(start as int, n as int);
            assert(cur.drop_first() =~= v@.subrange(start as int + 1, n as int));
        }
        start += 1;
    }
    let ghost rest = v@.subrange(start as int, n as int);
    assert(trim_start_spec(v@) == rest);
    let mut end: usize = n;
    while end > start && is_whitespace_char(v[end - 1])
        invariant
            start <= end <= n == v.len(),
            rest == v@.subrange(start as int, n as int),
            trim_end_spec(rest) == trim_end_spec(v@.subrange(start as int, end as int)),
        decreases end,
    {
        proof {
            let cur = v@.subrange(start as int, end as int);
            assert(cur.drop_last() =~= v@.subrange(start as int, end as int - 1));
        }
        end -= 1;
    }
    slice_of(v, start, end)
}

/// The fields of a line between occurrences of `sep`.
pub fn split(v: &Vec<char>, sep: char) -> (r: Vec<Vec<char>>)
    ensures
        r@.map_values(|f: Vec<char>| f@) == split_spec(v@, sep),
        r.len() >= 1,
{
    let mut done: Vec<Vec<char>> = Vec::new();
    let mut cur: Vec<char> = Vec::new();
    let mut i: usize = 0;
    assert(v@.take(0) =~= Seq::<char>::empty());
    assert(done@.map_values(|f: Vec<char>| f@).push(cur@) =~= split_spec(v@.take(0), sep));
    while i < v.len()
        invariant
            i <= v.len(),
            done@.map_values(|f: Vec<char>| f@).push(cur@) == split_spec(v@.take(i as int), sep),
        decreases v.len() - i,
    {
        let c = v[i];
        proof {
            let next = v@.take(i as int + 1);
            assert(next.drop_last() =~= v@.take(i as int));
            assert(next.last() == c);
        }
        if c == sep {
            let ghost before = done@.map_values(|f: Vec<char>| f@);
            done.push(cur);
            cur = Vec::new();
            assert(done@.map_values(|f: Vec<char>| f@) =~= before.push(done@.last()@));
            assert(done@.map_values(|f: Vec<char>| f@).push(cur@) =~= split_spec(
                v@.take(i as int + 1),
                sep,
            ));
        } else {
            let ghost old_cur = cur@;
            cur.push(c);
            let ghost before = done@.map_values(|f: Vec<char>| f@).push(old_cur);
            assert(done@.map_values(|f: Vec<char>| f@).push(cur@) =~= before.update(
                before.len() - 1,
                before.last().push(c),
            ));
        }
        i += 1;
    }
    assert(v@.take(v.len() as int) =~= v@);
    let ghost before = done@.map_values(|f: Vec<char>| f@);
    done.push(cur);
    assert(done@.map_values(|f: Vec<char>| f@) =~= before.push(done@.last()@));
    done
}

/// The lines of a text.
pub fn lines(v: &Vec<char>) -> (r: Vec<Vec<char>>)
    ensures
        r@.map_values(|l: Vec<char>| l@) == lines_spec(v@),
{
    let parts = split(v, '\n');
    let ghost sparts = split_spec(v@, '\n');
    let mut r: Vec<Vec<char>> = Vec::new();
    let mut i: usize = 0;
    let last = parts.len() - 1;
    while i < last
        invariant
            i <= last == parts.len() - 1,
            r.len() == i,
            sparts == parts@.map_values(|f: Vec<char>| f@),
            forall|j: int| 0 <= j < i ==> r@[j]@ == strip_carriage_return(sparts[j]),
        decreases last - i,
    {
        let part = &parts[i];
        assert(sparts[i as int] == part@);
        let n = part.len();
        if n > 0 && part[n - 1] == '\r' {
            let line = slice_of(part, 0, n - 1);
            assert(line@ =~= part@.drop_last());
            r.push(line);
        } else {
            let line = slice_of(part, 0, n);
            assert(line@ =~= part@);
            r.push(line);
        }
        i += 1;
    }
    assert(sparts[last as int] == parts@[last as int]@);
    let ghost ended = sparts.drop_last().map_values(|l: Seq<char>| strip_carriage_return(l));
    assert(r@.map_values(|l: Vec<char>| l@) =~= ended);
    if parts[last].len() > 0 {
        let tail = slice_of(&parts[last], 0, parts[last].len());
        assert(tail@ =~= parts@[last as int]@);
        r.push(tail);
        assert(r@.map_values(|l: Vec<char>| l@) =~= ended.push(sparts.last()));
    }
    r
}

/// Whether a line holds white space only.
pub fn is_blank(v: &Vec<char>) -> (r: bool)
    ensures
        r == (trim_spec(v@).len() == 0),
{
    trim(v).len() == 0
}

/// The text without the zeros that it begins with.
pub open spec fn strip_zeros_spec(s: Seq<char>) -> Seq<char>
    decreases s.len(),
{
    if s.len() > 0 && s[0] == '0' {
        strip_zeros_spec(s.drop_first())
    } else {
        s
    }
}

pub fn strip_zeros(v: &Vec<char>) -> (r: Vec<char>)
    ensures
        r@ == strip_zeros_spec(v@),
{
    let n = v.len();
    let mut start: usize = 0;
    assert(v@.subrange(0, n as int) =~= v@);
    while start < n && v[start] == '0'
        invariant
            start <= n == v.len(),
            strip_zeros_spec(v@) == strip_zeros_spec(v@.subrange(start as int, n as int)),
        decreases n - start,
    {
        proof {
            let cur = v@.subrange(start as int, n as int);
            assert(cur.drop_first() =~= v@.subrange(start as int + 1, n as int));
        }
        start += 1;
    }
    slice_of(v, start, n)
}

/// The fields of a line, each trimmed.
pub fn split_trimmed(v: &Vec<char>, sep: char) -> (r: Vec<Vec<char>>)
    ensures
        r@.map_values(|f: Vec<char>| f@) == trimmed_fields(v@, sep),
        r.len() >= 1,
{
    let raw = split(v, sep);
    let mut r: Vec<Vec<char>> = Vec::new();
    let mut i: usize = 0;
    while i < raw.len()
        invariant
            i <= raw.len(),
            r.len() == i,
            forall|j: int| 0 <= j < i ==> r@[j]@ == trim_spec(raw@[j]@),
        decreases raw.len() - i,
    {
        r.push(trim(&raw[i]));
        i += 1;
    }
    assert(r@.map_values(|f: Vec<char>| f@) =~= raw@.map_values(|f: Vec<char>| f@).map_values(
        |f: Seq<char>| trim_spec(f),
    ));
    r
}

pub fn matches_at_exec(s: &Vec<char>, pat: &Vec<char>, i: usize) -> (r: bool)
    ensures
        r == matches_at(s@, pat@, i as int),
{
    if pat.len() > s.len() || i > s.len() - pat.len() {
        return false;
    }
    let mut k: usize = 0;
    while k < pat.len()
        invariant
            k <= pat.len(),
            i + pat.len() <= s.len(),
            forall|j: int| 0 <= j < k ==> s@[i + j] == pat@[j],
        decreases pat.len() - k,
    {
        if s[i + k] != pat[k] {
            assert(s@.subrange(i as int, i + pat.len())[k as int] != pat@[k as int]);
            return false;
        }
        k += 1;
    }
    assert(s@.subrange(i as int, i + pat.len()) =~= pat@);
    true
}

/// The first position where `pat` stands in `s`.
pub fn find(s: &Vec<char>, pat: &Vec<char>) -> (r: Option<usize>)
    ensures
        match r {
            Some(i) => find_spec(s@, pat@) == i,
            None => find_spec(s@, pat@) == -1,
        },
{
    if pat.len() > s.len() {
        return None;
    }
    let last = s.len() - pat.len();
    let mut i: usize = 0;
    loop
        invariant
            i <= last,
            last == s.len() - pat.len(),
            find_spec(s@, pat@) == find_from(s@, pat@, i as int),
        decreases last - i,
    {
        if matches_at_exec(s, pat, i) {
            return Some(i);
        }
        if i == last {
            assert(find_from(s@, pat@, i as int + 1) == -1);
            return None;
        }
        i += 1;
    }
}

/// Where a pattern is found it fits into the text.
pub proof fn lemma_find_in_range(s: Seq<char>, pat: Seq<char>)
    ensures
        find_spec(s, pat) >= 0 ==> find_spec(s, pat) + pat.len() <= s.len() && matches_at(
            s,
            pat,
            find_spec(s, pat),
        ),
        find_spec(s, pat) >= -1,
{
    lemma_find_from(s, pat, 0);
}

proof fn lemma_find_from(s: Seq<char>, pat: Seq<char>, from: int)
    requires
        from >= 0,
    ensures
        find_from(s, pat, from) >= 0 ==> from <= find_from(s, pat, from) && find_from(s, pat, from)
            + pat.len() <= s.len() && matches_at(s, pat, find_from(s, pat, from)),
        find_from(s, pat, from) >= -1,
    decreases s.len() - from + 1,
{
    if from + pat.len() <= s.len() && !matches_at(s, pat, from) {
        lemma_find_from(s, pat, from + 1);
    }
}

pub fn contains(s: &Vec<char>, pat: &str) -> (r: bool)
    ensures
        r == contains_spec(s@, pat@),
{
    let p = chars_of(pat);
    find(s, &p).is_some()
}

pub fn starts_with(s: &Vec<char>, pat: &str) -> (r: bool)
    ensures
        r == starts_with_spec(s@, pat@),
{
    let p = chars_of(pat);
    matches_at_exec(s, &p, 0)
}

pub fn ends_with(s: &Vec<char>, pat: &str) -> (r: bool)
    ensures
        r == ends_with_spec(s@, pat@),
{
    let p = chars_of(pat);
    if p.len() > s.len() {
        return false;
    }
    matches_at_exec(s, &p, s.len() - p.len())
}

pub fn contains_char(s: &Vec<char>, c: char) -> (r: bool)
    ensures
        r == s@.contains(c),
{
    let mut i: usize = 0;
    while i < s.len()
        invariant
            i <= s.len(),
            forall|j: int| 0 <= j < i ==> s@[j] != c,
        decreases s.len() - i,
    {
        if s[i] == c {
            return true;
        }
        i += 1;
    }
    false
}

/// A longer text of digits writes a number at least as large as its prefix.
pub proof fn lemma_decimal_value_prefix(s: Seq<char>, k: int)
    requires
        0 <= k <= s.len(),
    ensures
        decimal_value(s.take(k)) <= decimal_value(s),
    decreases s.len() - k,
{
    if k == s.len() {
        assert(s.take(k) =~= s);
    } else {
        lemma_decimal_value_prefix(s, k + 1);
        assert(s.take(k + 1).drop_last() =~= s.take(k));
    }
}

/// The value of a text that holds digits only, if it is at most `max`.
pub open spec fn digits_spec(s: Seq<char>, max: nat) -> Option<nat> {
    if s.len() > 0 && all_digits(s) && decimal_value(s) <= max {
        Some(decimal_value(s))
    } else {
        None
    }
}

/// The value of the digits of `v` from `from` on, if it is at most `max`.
pub fn parse_digits(v: &Vec<char>, from: usize, max: u64) -> (r: Option<u64>)
    requires
        from <= v.len(),
        max <= 0x0FFF_FFFF_FFFF_FFFF,
    ensures
        match r {
            Some(n) => digits_spec(v@.subrange(from as int, v.len() as int), max as nat) == Some(
                n as nat,
            ),
            None => digits_spec(v@.subrange(from as int, v.len() as int), max as nat).is_none(),
        },
{
    let ghost body = v@.subrange(from as int, v.len() as int);
    if from == v.len() {
        return None;
    }
    let mut acc: u64 = 0;
    let mut i: usize = from;
    assert(body.take(0) =~= Seq::<char>::empty());
    while i < v.len()
        invariant
            from <= i <= v.len(),
            body == v@.subrange(from as int, v.len() as int),
            max <= 0x0FFF_FFFF_FFFF_FFFF,
            acc <= max,
            acc == decimal_value(body.take(i - from)),
            all_digits(body.take(i - from)),
        decreases v.len() - i,
    {
        let c = v[i];
        proof {
            assert(body[i - from] == c);
            assert(body.take(i - from + 1).drop_last() =~= body.take(i - from));
            assert(body.take(i - from + 1).last() == c);
        }
        if !is_digit_char(c) {
            return None;
        }
        let d: u64 = (c as u32 - '0' as u32) as u64;
        let next: u64 = acc * 10 + d;
        if next > max {
            proof {
                lemma_decimal_value_prefix(body, i - from + 1);
            }
            return None;
        }
        acc = next;
        i += 1;
    }
    assert(body.take(body.len() as int) =~= body);
    Some(acc)
}

/// Reads an unsigned decimal number of at most `max`.
pub fn parse_unsigned(v: &Vec<char>, max: u64) -> (r: Option<u64>)
    requires
        max <= 0x0FFF_FFFF_FFFF_FFFF,
    ensures
        match r {
            Some(n) => parse_unsigned_spec(v@, max as nat) == Some(n as nat),
            None => parse_unsigned_spec(v@, max as nat).is_none(),
        },
{
    let from: usize = if v.len() > 0 && v[0] == '+' {
        1
    } else {
        0
    };
    proof {
        if from == 1 {
            assert(v@.drop_first() =~= v@.subrange(1, v.len() as int));
        } else {
            assert(v@ =~= v@.subrange(0, v.len() as int));
        }
    }
    parse_digits(v, from, max)
}

/// Reads a signed decimal number between `min` and `max`.
pub fn parse_signed(v: &Vec<char>, min: i64, max: i64) -> (r: Option<i64>)
    requires
        -0x0FFF_FFFF_FFFF_FFFF <= min <= 0 <= max <= 0x0FFF_FFFF_FFFF_FFFF,
    ensures
        match r {
            Some(n) => parse_signed_spec(v@, min as int, max as int) == Some(n as int),
            None => parse_signed_spec(v@, min as int, max as int).is_none(),
        },
{
    let negative = v.len() > 0 && v[0] == '-';
    let from: usize = if v.len() > 0 && (v[0] == '+' || v[0] == '-') {
        1
    } else {
        0
    };
    proof {
        if from == 1 {
            assert(v@.drop_first() =~= v@.subrange(1, v.len() as int));
        } else {
            assert(v@ =~= v@.subrange(0, v.len() as int));
        }
    }
    if negative {
        match parse_digits(v, from, (-min) as u64) {
            Some(m) => Some(-(m as i64)),
            None => None,
        }
    } else {
        match parse_digits(v, from, max as u64) {
            Some(m) => Some(m as i64),
            None => None,
        }
    }
}

/// The string slice that holds one decimal digit.
fn digit_str(d: u64) -> (r: &'static str)
    requires
        d < 10,
    ensures
        r@ == seq![digit_char(d as nat)],
{
    proof {
        reveal_strlit("0");
        reveal_strlit("1");
        reveal_strlit("2");
        reveal_strlit("3");
        reveal_strlit("4");
        reveal_strlit("5");
        reveal_strlit("6");
        reveal_strlit("7");
        reveal_strlit("8");
        reveal_strlit("9");
    }
    let r = if d == 0 {
        "0"
    } else if d == 1 {
        "1"
    } else if d == 2 {
        "2"
    } else if d == 3 {
        "3"
    } else if d == 4 {
        "4"
    } else if d == 5 {
        "5"
    } else if d == 6 {
        "6"
    } else if d == 7 {
        "7"
    } else if d == 8 {
        "8"
    } else {
        "9"
    };
    assert(r@ =~= seq![digit_char(d as nat)]);
    r
}

/// Appends the decimal digits of `n`.
pub fn append_decimal(s: &mut String, n: u64)
    ensures
        final(s)@ == old(s)@ + decimal_repr(n as nat),
    decreases n,
{
    if n >= 10 {
        append_decimal(s, n / 10);
    }
    s.append(digit_str(n % 10));
    proof {
        if n >= 10 {
            assert(final(s)@ =~= old(s)@ + decimal_repr(n as nat));
        } else {
            assert(final(s)@ =~= old(s)@ + decimal_repr(n as nat));
        }
    }
}

/// Appends a number of tenths as a decimal number with one decimal.
pub fn append_tenths(s: &mut String, v: i64)
    ensures
        final(s)@ == old(s)@ + tenths_repr(v as int),
{
    let magnitude: u64 = if v < 0 {
        (-(v + 1)) as u64 + 1
    } else {
        v as u64
    };
    if v < 0 {
        s.append("-");
    }
    append_decimal(s, magnitude / 10);
    s.append(".");
    s.append(digit_str(magnitude % 10));
    proof {
        reveal_strlit("-");
        reveal_strlit(".");
        assert(final(s)@ =~= old(s)@ + tenths_repr(v as int));
    }
}

/// The decimal digits of `n` as a string.
pub fn decimal_string(n: u64) -> (s: String)
    ensures
        s@ == decimal_repr(n as nat),
{
    let mut s = String::new();
    append_decimal(&mut s, n);
    assert(s@ =~= decimal_repr(n as nat));
    s
}

} // verus!
