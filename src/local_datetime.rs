//! Local wall-clock times, written `YYYY-MM-DD HH:MM:SS`.

use vstd::prelude::*;
use vstd::utf8::{encode_utf8, is_ascii_chars, is_ascii_chars_encode_utf8};

use chrono::{Offset, TimeZone};

use crate::error::DecodeError;

verus! {

/// A wall-clock time of the local time zone, with that zone's offset from UTC at
/// that time.
#[derive(Clone, Copy, Debug, PartialEq, Eq, Structural)]
pub struct LocalDateTime {
    pub year: u16,
    pub month: u8,
    pub day: u8,
    pub hour: u8,
    pub minute: u8,
    pub second: u8,
    /// Seconds east of UTC.
    pub utc_offset: i32,
}

pub open spec fn is_leap_year(y: int) -> bool {
    (y % 4 == 0 && y % 100 != 0) || y % 400 == 0
}

pub open spec fn days_in_month(y: int, m: int) -> int {
    if m == 2 {
        if is_leap_year(y) { 29 } else { 28 }
    } else if m == 4 || m == 6 || m == 9 || m == 11 {
        30
    } else {
        31
    }
}

/// A date of the Gregorian calendar and a time of day.
pub open spec fn valid_wall_clock(f: WallClock) -> bool {
    &&& 1 <= f.1 <= 12
    &&& 1 <= f.2 <= days_in_month(f.0 as int, f.1 as int)
    &&& f.3 < 24
    &&& f.4 < 60
    &&& f.5 < 60
}

/// Year, month, day, hour, minute, second.
pub type WallClock = (u16, u8, u8, u8, u8, u8);

impl LocalDateTime {
    pub open spec fn wall_clock(&self) -> WallClock {
        (self.year, self.month, self.day, self.hour, self.minute, self.second)
    }

    pub open spec fn wf(&self) -> bool {
        &&& self.year <= 9999
        &&& valid_wall_clock(self.wall_clock())
        &&& -86400 < self.utc_offset < 86400
    }
}

pub open spec fn is_digit_byte(b: u8) -> bool {
    0x30 <= b <= 0x39
}

pub open spec fn digit_at(b: Seq<u8>, i: int) -> int {
    b[i] - 0x30
}

pub open spec fn num2(b: Seq<u8>, i: int) -> int {
    10 * digit_at(b, i) + digit_at(b, i + 1)
}

pub open spec fn num4(b: Seq<u8>, i: int) -> int {
    100 * num2(b, i) + num2(b, i + 2)
}

pub open spec fn is_separator_pos(i: int) -> bool {
    i == 4 || i == 7 || i == 10 || i == 13 || i == 16
}

/// `YYYY-MM-DD HH:MM:SS`, every field zero-padded.
pub open spec fn has_datetime_shape(b: Seq<u8>) -> bool {
    &&& b.len() == 19
    &&& b[4] == 0x2d && b[7] == 0x2d && b[10] == 0x20 && b[13] == 0x3a && b[16] == 0x3a
    &&& forall|i: int| 0 <= i < 19 && !is_separator_pos(i) ==> is_digit_byte(#[trigger] b[i])
}

/// The fields of a `YYYY-MM-DD HH:MM:SS` text, read as numbers.
pub open spec fn spec_parse_wall_clock(b: Seq<u8>) -> Option<WallClock> {
    if has_datetime_shape(b) {
        Some(
            (
                num4(b, 0) as u16,
                num2(b, 5) as u8,
                num2(b, 8) as u8,
                num2(b, 11) as u8,
                num2(b, 14) as u8,
                num2(b, 17) as u8,
            ),
        )
    } else {
        None
    }
}

pub open spec fn digit_byte(d: int) -> u8 {
    (0x30 + d) as u8
}

pub open spec fn two_digits(n: int) -> Seq<u8> {
    seq![digit_byte(n / 10), digit_byte(n % 10)]
}

pub open spec fn four_digits(n: int) -> Seq<u8> {
    two_digits(n / 100) + two_digits(n % 100)
}

/// `YYYY-MM-DD HH:MM:SS` for a wall-clock time.
pub open spec fn datetime_text(f: WallClock) -> Seq<u8> {
    four_digits(f.0 as int) + seq![0x2du8] + two_digits(f.1 as int) + seq![0x2du8] + two_digits(
        f.2 as int,
    ) + seq![0x20u8] + two_digits(f.3 as int) + seq![0x3au8] + two_digits(f.4 as int) + seq![
        0x3au8,
    ] + two_digits(f.5 as int)
}

/// `HH:MM`.
pub open spec fn hour_minute_text(t: LocalDateTime) -> Seq<u8> {
    two_digits(t.hour as int) + seq![0x3au8] + two_digits(t.minute as int)
}

/// Relies on chrono: `NaiveDate::from_ymd_opt` and `NaiveDate::and_hms_opt` give
/// nothing for a date or time of day that does not exist, `Local`'s
/// `from_local_datetime(..).single()` gives nothing where the local clock skips
/// or repeats that time, and a fixed offset lies strictly within one day.
#[verifier::external_body]
fn local_utc_offset(f: WallClock) -> (r: Option<i32>)
    ensures
        r is Some ==> valid_wall_clock(f) && -86400 < r->Some_0 < 86400,
{
    let date = chrono::NaiveDate::from_ymd_opt(f.0 as i32, f.1 as u32, f.2 as u32)?;
    let naive = date.and_hms_opt(f.3 as u32, f.4 as u32, f.5 as u32)?;
    let local = chrono::Local.from_local_datetime(&naive).single()?;
    Some(local.offset().fix().local_minus_utc())
}

fn digit_value(b: &[u8], i: usize) -> (r: u16)
    requires
        i < b@.len(),
        is_digit_byte(b@[i as int]),
    ensures
        r == digit_at(b@, i as int),
{
    (b[i] - 0x30) as u16
}

/// Reads the fields of a `YYYY-MM-DD HH:MM:SS` text.
pub fn parse_wall_clock(s: &str) -> (r: Option<WallClock>)
    ensures
        r == spec_parse_wall_clock(encode_utf8(s@)),
{
    let b = s.as_bytes();
    assert(b@ == encode_utf8(s@));
    if b.len() != 19 {
        return None;
    }
    if !(b[4] == 0x2d && b[7] == 0x2d && b[10] == 0x20 && b[13] == 0x3a && b[16] == 0x3a) {
        return None;
    }
    let mut i: usize = 0;
    while i < 19
        invariant
            b@ == encode_utf8(s@),
            b@.len() == 19,
            i <= 19,
            forall|k: int| 0 <= k < i && !is_separator_pos(k) ==> is_digit_byte(#[trigger] b@[k]),
        decreases 19 - i,
    {
        if !(i == 4 || i == 7 || i == 10 || i == 13 || i == 16) && !(0x30 <= b[i] && b[i] <= 0x39) {
            assert(!has_datetime_shape(b@)) by {
                assert(!is_separator_pos(i as int) && !is_digit_byte(b@[i as int]));
            }
            return None;
        }
        i = i + 1;
    }
    let year = 1000 * digit_value(b, 0) + 100 * digit_value(b, 1) + 10 * digit_value(b, 2) + digit_value(b, 3);
    let month = 10 * digit_value(b, 5) + digit_value(b, 6);
    let day = 10 * digit_value(b, 8) + digit_value(b, 9);
    let hour = 10 * digit_value(b, 11) + digit_value(b, 12);
    let minute = 10 * digit_value(b, 14) + digit_value(b, 15);
    let second = 10 * digit_value(b, 17) + digit_value(b, 18);
    Some((year, month as u8, day as u8, hour as u8, minute as u8, second as u8))
}

/// The local time at wall clock `f`, given the zone's offset there (`None`
/// where the zone has no single offset for it).
pub open spec fn spec_local_time(f: WallClock, offset: Option<i32>) -> Option<LocalDateTime> {
    match offset {
        Some(o) => if f.0 <= 9999 && valid_wall_clock(f) && -86400 < o < 86400 {
            Some(
                LocalDateTime {
                    year: f.0,
                    month: f.1,
                    day: f.2,
                    hour: f.3,
                    minute: f.4,
                    second: f.5,
                    utc_offset: o,
                },
            )
        } else {
            None
        },
        None => None,
    }
}

/// Joins a wall-clock time and the offset that the local zone gave for it.
pub fn local_time(f: WallClock, offset: Option<i32>) -> (r: Option<LocalDateTime>)
    ensures
        r == spec_local_time(f, offset),
        r matches Some(t) ==> t.wf(),
{
    match offset {
        Some(o) => if f.0 <= 9999 && 1 <= f.1 && f.1 <= 12 && 1 <= f.2 && f.2 <= month_days(f.0, f.1) && f.3 < 24
            && f.4 < 60 && f.5 < 60 && -86400 < o && o < 86400 {
            Some(LocalDateTime { year: f.0, month: f.1, day: f.2, hour: f.3, minute: f.4, second: f.5, utc_offset: o })
        } else {
            None
        },
        None => None,
    }
}

/// The number of days in a month of a year.
pub fn month_days(year: u16, month: u8) -> (r: u8)
    requires
        1 <= month <= 12,
    ensures
        r == days_in_month(year as int, month as int),
{
    if month == 2 {
        if (year % 4 == 0 && year % 100 != 0) || year % 400 == 0 {
            29
        } else {
            28
        }
    } else if month == 4 || month == 6 || month == 9 || month == 11 {
        30
    } else {
        31
    }
}

/// Reads a local time written `YYYY-MM-DD HH:MM:SS`. A text of another shape,
/// a date or time of day that does not exist, or a wall-clock time that the
/// local time zone skips or repeats, is an `InvalidTime` error naming the text.
pub fn deserialize(s: &str) -> (r: Result<LocalDateTime, DecodeError>)
    ensures
        match r {
            Ok(t) => {
                &&& t.wf()
                &&& spec_parse_wall_clock(encode_utf8(s@)) == Some(t.wall_clock())
            },
            Err(e) => e matches DecodeError::InvalidTime(m) && m@ == s@,
        },
        spec_parse_wall_clock(encode_utf8(s@)) matches Some(f) && !valid_wall_clock(f) ==> r is Err,
        spec_parse_wall_clock(encode_utf8(s@)) is None ==> r is Err,
        r matches Ok(t) ==> spec_parse_wall_clock(encode_utf8(s@)) matches Some(f) && spec_local_time(
            f,
            Some(t.utc_offset),
        ) == Some(t),
{
    match parse_wall_clock(s) {
        Some(f) => match local_time(f, local_utc_offset(f)) {
            Some(t) => Ok(t),
            None => Err(DecodeError::InvalidTime(s.to_owned())),
        },
        None => Err(DecodeError::InvalidTime(s.to_owned())),
    }
}

/// Relies on `String::push`: appends one character.
#[verifier::external_body]
fn push_char(s: &mut String, c: char)
    ensures
        final(s)@ == old(s)@.push(c),
{
    s.push(c)
}

/// The text of ASCII bytes.
pub fn ascii_string(b: &[u8]) -> (r: String)
    requires
        forall|i: int| 0 <= i < b@.len() ==> #[trigger] b@[i] < 0x80,
    ensures
        encode_utf8(r@) == b@,
{
    let mut r = String::new();
    let mut i: usize = 0;
    while i < b.len()
        invariant
            i <= b@.len(),
            forall|k: int| 0 <= k < b@.len() ==> #[trigger] b@[k] < 0x80,
            r@.len() == i,
            forall|k: int| 0 <= k < i ==> (#[trigger] r@[k]) as int == b@[k] as int,
        decreases b@.len() - i,
    {
        push_char(&mut r, b[i] as char);
        i = i + 1;
    }
    proof {
        assert(is_ascii_chars(r@)) by {
            assert forall|k: int| 0 <= k < r@.len() implies '\0' <= #[trigger] r@[k] <= '\u{7f}' by {
                assert(r@[k] as int == b@[k] as int);
            }
        }
        is_ascii_chars_encode_utf8(r@);
        assert(encode_utf8(r@) =~= b@) by {
            assert forall|k: int| 0 <= k < b@.len() implies encode_utf8(r@)[k] == b@[k] by {
                assert(r@[k] as int == b@[k] as int);
            }
        }
    }
    r
}

fn push_two_digits(out: &mut Vec<u8>, n: u8)
    requires
        n < 100,
    ensures
        final(out)@ == old(out)@ + two_digits(n as int),
{
    out.push(0x30 + n / 10);
    out.push(0x30 + n % 10);
}

/// `YYYY-MM-DD HH:MM:SS` for a wall-clock time, as bytes.
pub fn datetime_bytes(t: &LocalDateTime) -> (r: Vec<u8>)
    requires
        t.wf(),
    ensures
        r@ == datetime_text(t.wall_clock()),
{
    let mut out: Vec<u8> = Vec::new();
    push_two_digits(&mut out, (t.year / 100) as u8);
    push_two_digits(&mut out, (t.year % 100) as u8);
    out.push(0x2d);
    push_two_digits(&mut out, t.month);
    out.push(0x2d);
    push_two_digits(&mut out, t.day);
    out.push(0x20);
    push_two_digits(&mut out, t.hour);
    out.push(0x3a);
    push_two_digits(&mut out, t.minute);
    out.push(0x3a);
    push_two_digits(&mut out, t.second);
    out
}

/// `HH:MM`, as bytes.
pub fn hour_minute_bytes(t: &LocalDateTime) -> (r: Vec<u8>)
    requires
        t.wf(),
    ensures
        r@ == hour_minute_text(*t),
{
    let mut out: Vec<u8> = Vec::new();
    push_two_digits(&mut out, t.hour);
    out.push(0x3a);
    push_two_digits(&mut out, t.minute);
    out
}

proof fn lemma_datetime_text_ascii(f: WallClock)
    requires
        f.0 <= 9999,
        f.1 < 100 && f.2 < 100 && f.3 < 100 && f.4 < 100 && f.5 < 100,
    ensures
        forall|i: int| 0 <= i < datetime_text(f).len() ==> #[trigger] datetime_text(f)[i] < 0x80,
{
}

/// Writes a local time as `YYYY-MM-DD HH:MM:SS`.
pub fn serialize(date: &LocalDateTime) -> (r: String)
    requires
        date.wf(),
    ensures
        encode_utf8(r@) == datetime_text(date.wall_clock()),
{
    let b = datetime_bytes(date);
    proof {
        lemma_datetime_text_ascii(date.wall_clock());
    }
    ascii_string(b.as_slice())
}

proof fn lemma_two_digits(n: int)
    requires
        0 <= n < 100,
    ensures
        is_digit_byte(two_digits(n)[0]),
        is_digit_byte(two_digits(n)[1]),
        10 * (two_digits(n)[0] - 0x30) + (two_digits(n)[1] - 0x30) == n,
{
}

/// The text that `serialize` writes reads back, by `deserialize`'s parser, to
/// the same wall-clock time; joined with the offset that the time carried, it
/// is the identical time. So `deserialize` gives back exactly what was
/// serialized whenever the local zone gives that wall-clock time the same
/// offset again.
pub proof fn lemma_serialize_reads_back(t: LocalDateTime)
    requires
        t.wf(),
    ensures
        spec_parse_wall_clock(datetime_text(t.wall_clock())) == Some(t.wall_clock()),
        spec_local_time(t.wall_clock(), Some(t.utc_offset)) == Some(t),
{
    let f = t.wall_clock();
    let b = datetime_text(f);
    let y = t.year as int;
    lemma_two_digits(y / 100);
    lemma_two_digits(y % 100);
    lemma_two_digits(t.month as int);
    lemma_two_digits(t.day as int);
    lemma_two_digits(t.hour as int);
    lemma_two_digits(t.minute as int);
    lemma_two_digits(t.second as int);
    let hi = two_digits(y / 100);
    let lo = two_digits(y % 100);
    let mo = two_digits(t.month as int);
    let d = two_digits(t.day as int);
    let h = two_digits(t.hour as int);
    let mi = two_digits(t.minute as int);
    let se = two_digits(t.second as int);
    assert(b =~= seq![
        hi[0], hi[1], lo[0], lo[1], 0x2du8, mo[0], mo[1], 0x2du8, d[0], d[1], 0x20u8,
        h[0], h[1], 0x3au8, mi[0], mi[1], 0x3au8, se[0], se[1],
    ]);
    assert(has_datetime_shape(b));
    assert(num4(b, 0) == 100 * (y / 100) + y % 100);
    assert(num4(b, 0) == y);
}

} // verus!
