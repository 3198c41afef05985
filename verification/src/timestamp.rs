//! Timestamp normalization.
//!
//! Each source encodes creation time differently: offset-qualified ISO8601
//! (`2022-03-04T05:06:07+09:00`), zone-abbreviated ISO8601
//! (`2022-03-04T05:06:07Z`), and fractional-seconds plus zone-abbreviated
//! ISO8601 (`2022-03-04T05:06:07.000Z`). The normalizer parses each encoding
//! into one canonical naive-local representation, `YYYY-MM-DD HH:MM:SS`,
//! for storage-layer uniformity. Malformed input is a fault: normalization
//! never silently coerces or truncates.

use crate::error::CrawlError;
use vstd::arithmetic::div_mod::{lemma_div_denominator, lemma_fundamental_div_mod};
use vstd::prelude::*;
use vstd::string::StringExecFns;

verus! {

/// A wall-clock instant at one-second resolution, with no zone or offset.
#[derive(Clone, Copy, Debug, PartialEq, Eq, Structural)]
pub struct Timestamp {
    pub year: u16,
    pub month: u8,
    pub day: u8,
    pub hour: u8,
    pub minute: u8,
    pub second: u8,
}

/// A leap year of the proleptic Gregorian calendar.
pub open spec fn is_leap_year(y: nat) -> bool {
    y % 4 == 0 && (y % 100 != 0 || y % 400 == 0)
}

/// How many days month `m` of year `y` has.
pub open spec fn days_in_month(y: nat, m: nat) -> nat {
    if m == 2 {
        if is_leap_year(y) {
            29
        } else {
            28
        }
    } else if m == 4 || m == 6 || m == 9 || m == 11 {
        30
    } else {
        31
    }
}

impl Timestamp {
    /// A well-formed timestamp: fields in range and the day valid for its
    /// month and year. A date off the calendar is malformed input, never
    /// silently coerced.
    pub open spec fn wf(self) -> bool {
        &&& self.year <= 9999
        &&& 1 <= self.month <= 12
        &&& 1 <= self.day <= days_in_month(self.year as nat, self.month as nat)
        &&& self.hour <= 23
        &&& self.minute <= 59
        &&& self.second <= 59
    }
}

/// The numeric value of a decimal digit character, or 10 for any other char.
pub open spec fn digit_val(c: char) -> nat {
    if c == '0' {
        0
    } else if c == '1' {
        1
    } else if c == '2' {
        2
    } else if c == '3' {
        3
    } else if c == '4' {
        4
    } else if c == '5' {
        5
    } else if c == '6' {
        6
    } else if c == '7' {
        7
    } else if c == '8' {
        8
    } else if c == '9' {
        9
    } else {
        10
    }
}

pub open spec fn is_digit(c: char) -> bool {
    digit_val(c) < 10
}

/// The decimal digit character for a value below ten.
pub open spec fn digit_char(d: nat) -> char {
    if d == 0 {
        '0'
    } else if d == 1 {
        '1'
    } else if d == 2 {
        '2'
    } else if d == 3 {
        '3'
    } else if d == 4 {
        '4'
    } else if d == 5 {
        '5'
    } else if d == 6 {
        '6'
    } else if d == 7 {
        '7'
    } else if d == 8 {
        '8'
    } else {
        '9'
    }
}

/// An uppercase ASCII letter, as used in zone abbreviations.
pub open spec fn is_zone_char(c: char) -> bool {
    'A' <= c && c <= 'Z'
}

/// The two decimal digits of a value below one hundred.
pub open spec fn digits2(n: nat) -> Seq<char> {
    seq![digit_char(n / 10), digit_char(n % 10)]
}

/// The `YYYY-MM-DDxHH:MM:SS` characters of a timestamp, with `sep` in the
/// place of `x`: `T` in the source encodings, a space in the canonical form.
pub open spec fn dt_chars(t: Timestamp, sep: char) -> Seq<char> {
    seq![
        digit_char((t.year as nat) / 1000),
        digit_char(((t.year as nat) / 100) % 10),
        digit_char(((t.year as nat) / 10) % 10),
        digit_char((t.year as nat) % 10),
        '-',
        digit_char((t.month as nat) / 10),
        digit_char((t.month as nat) % 10),
        '-',
        digit_char((t.day as nat) / 10),
        digit_char((t.day as nat) % 10),
        sep,
        digit_char((t.hour as nat) / 10),
        digit_char((t.hour as nat) % 10),
        ':',
        digit_char((t.minute as nat) / 10),
        digit_char((t.minute as nat) % 10),
        ':',
        digit_char((t.second as nat) / 10),
        digit_char((t.second as nat) % 10),
    ]
}

/// The canonical representation: `YYYY-MM-DD HH:MM:SS`.
pub open spec fn canonical_chars(t: Timestamp) -> Seq<char> {
    dt_chars(t, ' ')
}

/// Structure of the 19-character `YYYY-MM-DDTHH:MM:SS` prefix shared by all
/// three source encodings.
pub open spec fn dt_prefix_structural(s: Seq<char>) -> bool {
    &&& s.len() >= 19
    &&& is_digit(s[0])
    &&& is_digit(s[1])
    &&& is_digit(s[2])
    &&& is_digit(s[3])
    &&& s[4] == '-'
    &&& is_digit(s[5])
    &&& is_digit(s[6])
    &&& s[7] == '-'
    &&& is_digit(s[8])
    &&& is_digit(s[9])
    &&& s[10] == 'T'
    &&& is_digit(s[11])
    &&& is_digit(s[12])
    &&& s[13] == ':'
    &&& is_digit(s[14])
    &&& is_digit(s[15])
    &&& s[16] == ':'
    &&& is_digit(s[17])
    &&& is_digit(s[18])
}

/// The timestamp spelled by a structurally valid prefix.
pub open spec fn dt_of(s: Seq<char>) -> Timestamp {
    Timestamp {
        year: (digit_val(s[0]) * 1000 + digit_val(s[1]) * 100 + digit_val(s[2]) * 10 + digit_val(
            s[3],
        )) as u16,
        month: (digit_val(s[5]) * 10 + digit_val(s[6])) as u8,
        day: (digit_val(s[8]) * 10 + digit_val(s[9])) as u8,
        hour: (digit_val(s[11]) * 10 + digit_val(s[12])) as u8,
        minute: (digit_val(s[14]) * 10 + digit_val(s[15])) as u8,
        second: (digit_val(s[17]) * 10 + digit_val(s[18])) as u8,
    }
}

/// A well-formed datetime prefix: structurally valid and in field ranges.
pub open spec fn valid_dt_prefix(s: Seq<char>) -> bool {
    dt_prefix_structural(s) && dt_of(s).wf()
}

/// The offset-qualified encoding: prefix plus `+HH:MM` or `-HH:MM`.
pub open spec fn valid_qiita_datetime(s: Seq<char>) -> bool {
    &&& valid_dt_prefix(s)
    &&& s.len() == 25
    &&& (s[19] == '+' || s[19] == '-')
    &&& is_digit(s[20])
    &&& is_digit(s[21])
    &&& s[22] == ':'
    &&& is_digit(s[23])
    &&& is_digit(s[24])
    &&& digit_val(s[20]) * 10 + digit_val(s[21]) <= 23
    &&& digit_val(s[23]) * 10 + digit_val(s[24]) <= 59
}

pub open spec fn all_zone_chars(s: Seq<char>, from: int, to: int) -> bool {
    forall|i: int| from <= i < to ==> is_zone_char(s[i])
}

/// The zone-abbreviated encoding: prefix plus one or more zone letters.
pub open spec fn valid_youtube_datetime(s: Seq<char>) -> bool {
    &&& valid_dt_prefix(s)
    &&& s.len() >= 20
    &&& all_zone_chars(s, 19, s.len() as int)
}

/// Index of the first non-digit character at or after `i`.
pub open spec fn first_non_digit(s: Seq<char>, i: int) -> int
    decreases s.len() - i when 0 <= i <= s.len()
{
    if i >= s.len() {
        i
    } else if !is_digit(s[i]) {
        i
    } else {
        first_non_digit(s, i + 1)
    }
}

/// The fractional-seconds, zone-abbreviated encoding: prefix, a dot, one or
/// more fraction digits, then one or more zone letters. The fraction is
/// dropped on normalization: the canonical form has one-second resolution.
pub open spec fn valid_twitter_datetime(s: Seq<char>) -> bool {
    let j = first_non_digit(s, 20);
    &&& valid_dt_prefix(s)
    &&& s.len() >= 22
    &&& s[19] == '.'
    &&& j > 20
    &&& j < s.len()
    &&& all_zone_chars(s, j, s.len() as int)
}

/// What normalization of the offset-qualified encoding returns.
pub open spec fn qiita_to_spec(s: Seq<char>) -> Option<Seq<char>> {
    if valid_qiita_datetime(s) {
        Some(canonical_chars(dt_of(s)))
    } else {
        None
    }
}

/// What normalization of the zone-abbreviated encoding returns.
pub open spec fn youtube_to_spec(s: Seq<char>) -> Option<Seq<char>> {
    if valid_youtube_datetime(s) {
        Some(canonical_chars(dt_of(s)))
    } else {
        None
    }
}

/// What normalization of the fractional, zone-abbreviated encoding returns.
pub open spec fn twitter_to_spec(s: Seq<char>) -> Option<Seq<char>> {
    if valid_twitter_datetime(s) {
        Some(canonical_chars(dt_of(s)))
    } else {
        None
    }
}

/// The numeric value of a digit character, 10 for any other character.
fn parse_digit(c: char) -> (r: u8)
    ensures
        r as nat == digit_val(c),
{
    if c == '0' {
        0
    } else if c == '1' {
        1
    } else if c == '2' {
        2
    } else if c == '3' {
        3
    } else if c == '4' {
        4
    } else if c == '5' {
        5
    } else if c == '6' {
        6
    } else if c == '7' {
        7
    } else if c == '8' {
        8
    } else if c == '9' {
        9
    } else {
        10
    }
}

fn is_zone_char_exec(c: char) -> (r: bool)
    ensures
        r == is_zone_char(c),
{
    'A' <= c && c <= 'Z'
}

/// The one-character string of a decimal digit value.
fn digit_str(d: u8) -> (s: &'static str)
    requires
        d < 10,
    ensures
        s@ == seq![digit_char(d as nat)],
{
    proof {
        reveal_strlit("0");
        reveal_strlit("1");
        reveal_strlit("2");
        reveal_strlit("3");
        reveal_strlit("4");
        reveal_strlit("5");
        reveal_strlit("6");
        reveal_strlit("7");
        reveal_strlit("8");
        reveal_strlit("9");
        assert("0"@ =~= seq!['0']);
        assert("1"@ =~= seq!['1']);
        assert("2"@ =~= seq!['2']);
        assert("3"@ =~= seq!['3']);
        assert("4"@ =~= seq!['4']);
        assert("5"@ =~= seq!['5']);
        assert("6"@ =~= seq!['6']);
        assert("7"@ =~= seq!['7']);
        assert("8"@ =~= seq!['8']);
        assert("9"@ =~= seq!['9']);
    }
    match d {
        0 => "0",
        1 => "1",
        2 => "2",
        3 => "3",
        4 => "4",
        5 => "5",
        6 => "6",
        7 => "7",
        8 => "8",
        _ => "9",
    }
}

/// Appends the two decimal digits of `n` to `out`.
fn push_digits2(out: &mut String, n: u8)
    requires
        n < 100,
    ensures
        final(out)@ == old(out)@ + digits2(n as nat),
{
    out.append(digit_str(n / 10));
    out.append(digit_str(n % 10));
    proof {
        assert(final(out)@ =~= old(out)@ + digits2(n as nat));
    }
}

/// Appends the four decimal digits of `n` to `out`.
fn push_digits4(out: &mut String, n: u16)
    requires
        n < 10000,
    ensures
        final(out)@ == old(out)@ + seq![
            digit_char((n as nat) / 1000),
            digit_char(((n as nat) / 100) % 10),
            digit_char(((n as nat) / 10) % 10),
            digit_char((n as nat) % 10),
        ],
{
    out.append(digit_str((n / 1000) as u8));
    out.append(digit_str(((n / 100) % 10) as u8));
    out.append(digit_str(((n / 10) % 10) as u8));
    out.append(digit_str((n % 10) as u8));
    proof {
        assert(final(out)@ =~= old(out)@ + seq![
            digit_char((n as nat) / 1000),
            digit_char(((n as nat) / 100) % 10),
            digit_char(((n as nat) / 10) % 10),
            digit_char((n as nat) % 10),
        ]);
    }
}

/// Writes `YYYY-MM-DDxHH:MM:SS` with the given separator character string.
fn format_dt(t: &Timestamp, sep: &str, sep_char: Ghost<char>) -> (r: String)
    requires
        t.wf(),
        sep@ == seq![sep_char@],
    ensures
        r@ == dt_chars(*t, sep_char@),
{
    let mut out = String::new();
    push_digits4(&mut out, t.year);
    out.append("-");
    push_digits2(&mut out, t.month);
    out.append("-");
    push_digits2(&mut out, t.day);
    out.append(sep);
    push_digits2(&mut out, t.hour);
    out.append(":");
    push_digits2(&mut out, t.minute);
    out.append(":");
    push_digits2(&mut out, t.second);
    proof {
        reveal_strlit("-");
        reveal_strlit(":");
        assert(out@ =~= dt_chars(*t, sep_char@));
    }
    out
}

/// Formats a timestamp in the canonical `YYYY-MM-DD HH:MM:SS` shape.
pub fn format_canonical(t: &Timestamp) -> (r: String)
    requires
        t.wf(),
    ensures
        r@ == canonical_chars(*t),
{
    proof {
        reveal_strlit(" ");
        assert(" "@ =~= seq![' ']);
    }
    format_dt(t, " ", Ghost(' '))
}

/// What the offset-qualified formatter produces: a zero offset is attached.
pub open spec fn qiita_format_spec(t: Timestamp) -> Seq<char> {
    dt_chars(t, 'T') + seq!['+', '0', '0', ':', '0', '0']
}

/// What the zone-abbreviated formatter produces.
pub open spec fn youtube_format_spec(t: Timestamp) -> Seq<char> {
    dt_chars(t, 'T') + seq!['Z']
}

/// What the fractional, zone-abbreviated formatter produces.
pub open spec fn twitter_format_spec(t: Timestamp) -> Seq<char> {
    dt_chars(t, 'T') + seq!['.', '0', '0', '0', 'Z']
}

/// Formats a timestamp in the offset-qualified source encoding.
pub fn format_qiita(t: &Timestamp) -> (r: String)
    requires
        t.wf(),
    ensures
        r@ == qiita_format_spec(*t),
{
    proof {
        reveal_strlit("T");
        assert("T"@ =~= seq!['T']);
    }
    let mut out = format_dt(t, "T", Ghost('T'));
    out.append("+00:00");
    proof {
        reveal_strlit("+00:00");
        assert(out@ =~= qiita_format_spec(*t));
    }
    out
}

/// Formats a timestamp in the zone-abbreviated source encoding.
pub fn format_youtube(t: &Timestamp) -> (r: String)
    requires
        t.wf(),
    ensures
        r@ == youtube_format_spec(*t),
{
    proof {
        reveal_strlit("T");
        assert("T"@ =~= seq!['T']);
    }
    let mut out = format_dt(t, "T", Ghost('T'));
    out.append("Z");
    proof {
        reveal_strlit("Z");
        assert(out@ =~= youtube_format_spec(*t));
    }
    out
}

/// Formats a timestamp in the fractional, zone-abbreviated source encoding.
pub fn format_twitter(t: &Timestamp) -> (r: String)
    requires
        t.wf(),
    ensures
        r@ == twitter_format_spec(*t),
{
    proof {
        reveal_strlit("T");
        assert("T"@ =~= seq!['T']);
    }
    let mut out = format_dt(t, "T", Ghost('T'));
    out.append(".000Z");
    proof {
        reveal_strlit(".000Z");
        assert(out@ =~= twitter_format_spec(*t));
    }
    out
}

/// Parses the shared 19-character datetime prefix of `s`, checking structure
/// and field ranges.
fn parse_dt_prefix(s: &str) -> (r: Option<Timestamp>)
    ensures
        valid_dt_prefix(s@) ==> r == Some(dt_of(s@)),
        !valid_dt_prefix(s@) ==> r is None,
{
    let n = s.unicode_len();
    if n < 19 {
        return None;
    }
    let d0 = parse_digit(s.get_char(0));
    let d1 = parse_digit(s.get_char(1));
    let d2 = parse_digit(s.get_char(2));
    let d3 = parse_digit(s.get_char(3));
    let d5 = parse_digit(s.get_char(5));
    let d6 = parse_digit(s.get_char(6));
    let d8 = parse_digit(s.get_char(8));
    let d9 = parse_digit(s.get_char(9));
    let d11 = parse_digit(s.get_char(11));
    let d12 = parse_digit(s.get_char(12));
    let d14 = parse_digit(s.get_char(14));
    let d15 = parse_digit(s.get_char(15));
    let d17 = parse_digit(s.get_char(17));
    let d18 = parse_digit(s.get_char(18));
    if d0 >= 10 || d1 >= 10 || d2 >= 10 || d3 >= 10 || d5 >= 10 || d6 >= 10 || d8 >= 10 || d9 >= 10
        || d11 >= 10 || d12 >= 10 || d14 >= 10 || d15 >= 10 || d17 >= 10 || d18 >= 10 {
        return None;
    }
    if s.get_char(4) != '-' || s.get_char(7) != '-' || s.get_char(10) != 'T' || s.get_char(13)
        != ':' || s.get_char(16) != ':' {
        return None;
    }
    let year: u16 = (d0 as u16) * 1000 + (d1 as u16) * 100 + (d2 as u16) * 10 + (d3 as u16);
    let month: u8 = d5 * 10 + d6;
    let day: u8 = d8 * 10 + d9;
    let hour: u8 = d11 * 10 + d12;
    let minute: u8 = d14 * 10 + d15;
    let second: u8 = d17 * 10 + d18;
    if month < 1 || month > 12 || hour > 23 || minute > 59 || second > 59 {
        return None;
    }
    if day < 1 || day > days_in_month_of(year, month) {
        return None;
    }
    Some(Timestamp { year, month, day, hour, minute, second })
}

/// How many days a month has, for day validation while parsing.
fn days_in_month_of(year: u16, month: u8) -> (r: u8)
    requires
        1 <= month <= 12,
    ensures
        r as nat == days_in_month(year as nat, month as nat),
{
    if month == 2 {
        if year % 4 == 0 && (year % 100 != 0 || year % 400 == 0) {
            29
        } else {
            28
        }
    } else if month == 4 || month == 6 || month == 9 || month == 11 {
        30
    } else {
        31
    }
}

/// Checks that every character of `s` from `start` on is a zone letter.
fn all_zone_chars_from(s: &str, start: usize) -> (r: bool)
    requires
        start as nat <= s@.len(),
    ensures
        r == all_zone_chars(s@, start as int, s@.len() as int),
{
    let n = s.unicode_len();
    let mut i: usize = start;
    while i < n
        invariant
            start <= i <= n,
            n as nat == s@.len(),
            all_zone_chars(s@, start as int, i as int),
        decreases n - i,
    {
        if !is_zone_char_exec(s.get_char(i)) {
            return false;
        }
        i += 1;
    }
    true
}

/// Advances over decimal digits from `start`, returning the index of the
/// first non-digit character (or the length of `s`).
fn scan_digits_from(s: &str, start: usize) -> (j: usize)
    requires
        start as nat <= s@.len(),
    ensures
        start <= j,
        j as int == first_non_digit(s@, start as int),
        j as nat <= s@.len(),
{
    let n = s.unicode_len();
    let mut j: usize = start;
    loop
        invariant
            start <= j <= n,
            n as nat == s@.len(),
            forall|k: int| start <= k < j ==> is_digit(s@[k]),
        ensures
            start <= j <= n,
            forall|k: int| start <= k < j ==> is_digit(s@[k]),
            j < n ==> !is_digit(s@[j as int]),
        decreases n - j,
    {
        if j >= n {
            break;
        }
        if parse_digit(s.get_char(j)) >= 10 {
            break;
        }
        j += 1;
    }
    proof {
        lemma_first_non_digit_scan(s@, start as int, j as int);
    }
    j
}

/// The formatter struct shared by the three source adapters: one
/// normalization function per known source encoding, each producing the
/// canonical `YYYY-MM-DD HH:MM:SS` form or a `TimeParseFault`.
pub struct DatetimeFormatter {}

impl DatetimeFormatter {
    /// Normalizes the offset-qualified encoding, `YYYY-MM-DDTHH:MM:SS+HH:MM`.
    /// The offset qualifies the wall-clock reading; the canonical form keeps
    /// the wall-clock fields and drops the offset.
    pub fn qiita_to(datetime: &String) -> (r: Result<String, CrawlError>)
        ensures
            match r {
                Ok(c) => qiita_to_spec(datetime@) == Some(c@),
                Err(e) => qiita_to_spec(datetime@) is None && e == CrawlError::TimeParseFault,
            },
    {
        let s = datetime.as_str();
        let t_opt = parse_dt_prefix(s);
        let n = s.unicode_len();
        match t_opt {
            None => Err(CrawlError::TimeParseFault),
            Some(t) => {
                if n != 25 {
                    return Err(CrawlError::TimeParseFault);
                }
                let sign = s.get_char(19);
                if sign != '+' && sign != '-' {
                    return Err(CrawlError::TimeParseFault);
                }
                let oh1 = parse_digit(s.get_char(20));
                let oh2 = parse_digit(s.get_char(21));
                let om1 = parse_digit(s.get_char(23));
                let om2 = parse_digit(s.get_char(24));
                if oh1 >= 10 || oh2 >= 10 || om1 >= 10 || om2 >= 10 {
                    return Err(CrawlError::TimeParseFault);
                }
                if s.get_char(22) != ':' {
                    return Err(CrawlError::TimeParseFault);
                }
                if oh1 * 10 + oh2 > 23 || om1 * 10 + om2 > 59 {
                    return Err(CrawlError::TimeParseFault);
                }
                Ok(format_canonical(&t))
            },
        }
    }

    /// Normalizes the zone-abbreviated encoding, `YYYY-MM-DDTHH:MM:SSZONE`.
    pub fn youtube_to(datetime: &String) -> (r: Result<String, CrawlError>)
        ensures
            match r {
                Ok(c) => youtube_to_spec(datetime@) == Some(c@),
                Err(e) => youtube_to_spec(datetime@) is None && e == CrawlError::TimeParseFault,
            },
    {
        let s = datetime.as_str();
        let t_opt = parse_dt_prefix(s);
        let n = s.unicode_len();
        match t_opt {
            None => Err(CrawlError::TimeParseFault),
            Some(t) => {
                if n < 20 {
                    return Err(CrawlError::TimeParseFault);
                }
                if !all_zone_chars_from(s, 19) {
                    return Err(CrawlError::TimeParseFault);
                }
                Ok(format_canonical(&t))
            },
        }
    }

    /// Normalizes the fractional, zone-abbreviated encoding,
    /// `YYYY-MM-DDTHH:MM:SS.FFFZONE`. The fraction is dropped: the canonical
    /// form has one-second resolution.
    pub fn twitter_to(datetime: &String) -> (r: Result<String, CrawlError>)
        ensures
            match r {
                Ok(c) => twitter_to_spec(datetime@) == Some(c@),
                Err(e) => twitter_to_spec(datetime@) is None && e == CrawlError::TimeParseFault,
            },
    {
        let s = datetime.as_str();
        let t_opt = parse_dt_prefix(s);
        let n = s.unicode_len();
        match t_opt {
            None => Err(CrawlError::TimeParseFault),
            Some(t) => {
                if n < 22 {
                    return Err(CrawlError::TimeParseFault);
                }
                if s.get_char(19) != '.' {
                    return Err(CrawlError::TimeParseFault);
                }
                // The fraction runs to the first non-digit character.
                let j = scan_digits_from(s, 20);
                if j == 20 || j >= n {
                    return Err(CrawlError::TimeParseFault);
                }
                if !all_zone_chars_from(s, j) {
                    return Err(CrawlError::TimeParseFault);
                }
                Ok(format_canonical(&t))
            },
        }
    }
}

/// A scan that saw only digits in `[a, j)` and a non-digit (or the end) at
/// `j` has found `first_non_digit(s, a)`.
proof fn lemma_first_non_digit_scan(s: Seq<char>, a: int, j: int)
    requires
        0 <= a <= j <= s.len(),
        forall|k: int| a <= k < j ==> is_digit(s[k]),
        j < s.len() ==> !is_digit(s[j]),
    ensures
        first_non_digit(s, a) == j,
    decreases j - a,
{
    if a < j {
        lemma_first_non_digit_scan(s, a + 1, j);
    }
}

/// Digit characters decode to the digit they encode.
proof fn lemma_digit_char_val(d: nat)
    requires
        d < 10,
    ensures
        digit_val(digit_char(d)) == d,
        is_digit(digit_char(d)),
{
}

/// A two-digit rendering decodes to the value it encodes.
proof fn lemma_digits2_val(n: nat)
    requires
        n < 100,
    ensures
        is_digit(digit_char(n / 10)),
        is_digit(digit_char(n % 10)),
        digit_val(digit_char(n / 10)) * 10 + digit_val(digit_char(n % 10)) == n,
{
    lemma_fundamental_div_mod(n as int, 10);
    lemma_digit_char_val(n / 10);
    lemma_digit_char_val(n % 10);
}

/// A four-digit rendering decodes to the value it encodes.
proof fn lemma_digits4_val(n: nat)
    requires
        n < 10000,
    ensures
        is_digit(digit_char(n / 1000)),
        is_digit(digit_char((n / 100) % 10)),
        is_digit(digit_char((n / 10) % 10)),
        is_digit(digit_char(n % 10)),
        digit_val(digit_char(n / 1000)) * 1000 + digit_val(digit_char((n / 100) % 10)) * 100
            + digit_val(digit_char((n / 10) % 10)) * 10 + digit_val(digit_char(n % 10)) == n,
{
    lemma_fundamental_div_mod(n as int, 10);
    lemma_fundamental_div_mod(n as int / 10, 10);
    lemma_fundamental_div_mod(n as int / 100, 10);
    lemma_div_denominator(n as int, 10, 10);
    lemma_div_denominator(n as int, 100, 10);
    lemma_digit_char_val(n / 1000);
    lemma_digit_char_val((n / 100) % 10);
    lemma_digit_char_val((n / 10) % 10);
    lemma_digit_char_val(n % 10);
}

/// The formatted prefix of a well-formed timestamp, with any suffix attached,
/// is a valid datetime prefix and parses back to the same instant.
proof fn lemma_dt_chars_parse(t: Timestamp, tail: Seq<char>)
    requires
        t.wf(),
    ensures
        valid_dt_prefix(dt_chars(t, 'T') + tail),
        dt_of(dt_chars(t, 'T') + tail) == t,
{
    let s = dt_chars(t, 'T') + tail;
    lemma_digits4_val(t.year as nat);
    lemma_digits2_val(t.month as nat);
    lemma_digits2_val(t.day as nat);
    lemma_digits2_val(t.hour as nat);
    lemma_digits2_val(t.minute as nat);
    lemma_digits2_val(t.second as nat);
    assert(dt_prefix_structural(s));
    assert(dt_of(s) == t);
}

/// Round trip through the offset-qualified encoding: formatting a well-formed
/// timestamp and normalizing the result returns the canonical form of the
/// same instant, at one-second resolution.
pub proof fn lemma_qiita_round_trip(t: Timestamp)
    requires
        t.wf(),
    ensures
        valid_qiita_datetime(qiita_format_spec(t)),
        dt_of(qiita_format_spec(t)) == t,
        qiita_to_spec(qiita_format_spec(t)) == Some(canonical_chars(t)),
{
    lemma_dt_chars_parse(t, seq!['+', '0', '0', ':', '0', '0']);
}

/// Round trip through the zone-abbreviated encoding.
pub proof fn lemma_youtube_round_trip(t: Timestamp)
    requires
        t.wf(),
    ensures
        valid_youtube_datetime(youtube_format_spec(t)),
        dt_of(youtube_format_spec(t)) == t,
        youtube_to_spec(youtube_format_spec(t)) == Some(canonical_chars(t)),
{
    lemma_dt_chars_parse(t, seq!['Z']);
}

/// Round trip through the fractional, zone-abbreviated encoding.
pub proof fn lemma_twitter_round_trip(t: Timestamp)
    requires
        t.wf(),
    ensures
        valid_twitter_datetime(twitter_format_spec(t)),
        dt_of(twitter_format_spec(t)) == t,
        twitter_to_spec(twitter_format_spec(t)) == Some(canonical_chars(t)),
{
    let s = twitter_format_spec(t);
    lemma_dt_chars_parse(t, seq!['.', '0', '0', '0', 'Z']);
    assert(is_digit(s[20]) && is_digit(s[21]) && is_digit(s[22]) && !is_digit(s[23]));
    lemma_first_non_digit_scan(s, 20, 23);
}

} // verus!
