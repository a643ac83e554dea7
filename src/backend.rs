//! The timetable service's data, and decoding its answer into a checked board.

use vstd::prelude::*;
use vstd::string::StringExecFns;
use vstd::utf8::encode_utf8;

use crate::error::{CoordInput, DecodeError};
use crate::local_datetime::{
    deserialize, spec_parse_wall_clock, valid_wall_clock, LocalDateTime,
};

verus! {

/// A map coordinate, below one million.
#[derive(Clone, Copy, Debug, PartialEq, Eq, Structural)]
pub struct Coord(pub u32);

pub const COORD_LIMIT: u64 = 1_000_000;

pub open spec fn is_digit(b: u8) -> bool {
    0x30 <= b <= 0x39
}

pub open spec fn all_digits(b: Seq<u8>) -> bool {
    forall|i: int| 0 <= i < b.len() ==> is_digit(#[trigger] b[i])
}

/// The number that a sequence of decimal digits stands for.
pub open spec fn digits_value(b: Seq<u8>) -> int
    decreases b.len(),
{
    if b.len() == 0 {
        0
    } else {
        10 * digits_value(b.drop_last()) + (b.last() - 0x30)
    }
}

/// The number written by a text of decimal digits, after an optional `+`.
pub open spec fn text_number(b: Seq<u8>) -> Option<int> {
    let d = if b.len() > 0 && b[0] == 0x2b { b.drop_first() } else { b };
    if d.len() > 0 && all_digits(d) {
        Some(digits_value(d))
    } else {
        None
    }
}

/// The number that a coordinate input stands for, if it stands for one.
pub open spec fn coord_number(input: CoordInput) -> Option<int> {
    match input {
        CoordInput::Unsigned(n) => Some(n as int),
        CoordInput::Signed(n) => Some(n as int),
        CoordInput::Text(s) => text_number(encode_utf8(s@)),
    }
}

pub open spec fn spec_parse_coord(input: CoordInput) -> Option<Coord> {
    match coord_number(input) {
        Some(v) => if 0 <= v < 1_000_000 {
            Some(Coord(v as u32))
        } else {
            None
        },
        None => None,
    }
}

impl Coord {
    pub open spec fn wf(&self) -> bool {
        self.0 < 1_000_000
    }
}

proof fn lemma_digits_value_nonneg(b: Seq<u8>)
    requires
        all_digits(b),
    ensures
        digits_value(b) >= 0,
    decreases b.len(),
{
    if b.len() > 0 {
        assert(all_digits(b.drop_last())) by {
            assert forall|i: int| 0 <= i < b.drop_last().len() implies is_digit(
                #[trigger] b.drop_last()[i],
            ) by {
                assert(b.drop_last()[i] == b[i]);
            }
        }
        lemma_digits_value_nonneg(b.drop_last());
    }
}

/// A longer run of digits is worth at least as much as its start.
proof fn lemma_digits_value_grows(b: Seq<u8>, k: int)
    requires
        all_digits(b),
        0 <= k <= b.len(),
    ensures
        digits_value(b.subrange(0, k)) <= digits_value(b),
    decreases b.len() - k,
{
    if k < b.len() {
        let c = b.subrange(0, k + 1);
        assert(c.drop_last() == b.subrange(0, k));
        assert(all_digits(b.subrange(0, k))) by {
            assert forall|i: int| 0 <= i < k implies is_digit(#[trigger] b.subrange(0, k)[i]) by {
                assert(b.subrange(0, k)[i] == b[i]);
            }
        }
        lemma_digits_value_nonneg(b.subrange(0, k));
        assert(is_digit(b[k]));
        lemma_digits_value_grows(b, k + 1);
    } else {
        assert(b.subrange(0, k) == b);
    }
}

proof fn lemma_digits_extend(d: Seq<u8>, k: int)
    requires
        0 <= k < d.len(),
        all_digits(d.subrange(0, k)),
        is_digit(d[k]),
    ensures
        all_digits(d.subrange(0, k + 1)),
        digits_value(d.subrange(0, k + 1)) == 10 * digits_value(d.subrange(0, k)) + (d[k] - 0x30),
{
    assert(d.subrange(0, k + 1).drop_last() == d.subrange(0, k));
    assert forall|j: int| 0 <= j < k + 1 implies is_digit(#[trigger] d.subrange(0, k + 1)[j]) by {
        if j < k {
            assert(d.subrange(0, k + 1)[j] == d.subrange(0, k)[j]);
        }
    }
}

fn copy_input(c: &CoordInput) -> (r: CoordInput)
    ensures
        r == *c,
{
    match c {
        CoordInput::Unsigned(n) => CoordInput::Unsigned(*n),
        CoordInput::Signed(n) => CoordInput::Signed(*n),
        CoordInput::Text(s) => CoordInput::Text(s.clone()),
    }
}

/// Reads a run of decimal digits after an optional `+`, as long as its value
/// is below one million.
fn parse_small_number(s: &str) -> (r: Option<u32>)
    ensures
        match text_number(encode_utf8(s@)) {
            Some(v) => if v < 1_000_000 {
                r == Some(v as u32)
            } else {
                r is None
            },
            None => r is None,
        },
        text_number(encode_utf8(s@)) matches Some(v) ==> v >= 0,
{
    let b = s.as_bytes();
    assert(b@ == encode_utf8(s@));
    proof {
        let d = if b@.len() > 0 && b@[0] == 0x2b { b@.drop_first() } else { b@ };
        if d.len() > 0 && all_digits(d) {
            lemma_digits_value_nonneg(d);
        }
    }
    let ghost full = b@;
    let start: usize = if b.len() > 0 && b[0] == 0x2b { 1 } else { 0 };
    let ghost d = if b@.len() > 0 && b@[0] == 0x2b { b@.drop_first() } else { b@ };
    assert(d == b@.subrange(start as int, b@.len() as int));
    if start == b.len() {
        return None;
    }
    let mut value: u64 = 0;
    let mut i: usize = start;
    while i < b.len()
        invariant
            b@ == full,
            full == encode_utf8(s@),
            d == (if full.len() > 0 && full[0] == 0x2b { full.drop_first() } else { full }),
            d.len() > 0,
            start <= i <= b@.len(),
            d == b@.subrange(start as int, b@.len() as int),
            all_digits(d.subrange(0, i - start)),
            value == digits_value(d.subrange(0, i - start)),
            value < 1_000_000,
            text_number(full) matches Some(v) ==> v >= 0,
        decreases b@.len() - i,
    {
        let c = b[i];
        let ghost k = i - start;
        assert(d[k] == c);
        if !(0x30 <= c && c <= 0x39) {
            assert(!all_digits(d));
            return None;
        }
        proof {
            lemma_digits_extend(d, k);
        }
        value = value * 10 + (c - 0x30) as u64;
        i = i + 1;
        if value >= COORD_LIMIT {
            proof {
                if all_digits(d) {
                    lemma_digits_value_grows(d, k + 1);
                }
            }
            return None;
        }
    }
    assert(d.subrange(0, i - start) == d);
    Some(value as u32)
}

impl Coord {
    /// Reads a coordinate: an integer, or a string of decimal digits, in
    /// `[0, 1_000_000)`. Anything else is an `InvalidCoord` error that carries
    /// the input.
    pub fn parse(input: &CoordInput) -> (r: Result<Coord, DecodeError>)
        ensures
            match spec_parse_coord(*input) {
                Some(c) => r == Ok::<Coord, DecodeError>(c),
                None => r == Err::<Coord, DecodeError>(DecodeError::InvalidCoord(*input)),
            },
            r matches Ok(c) ==> c.wf(),
    {
        let v: Option<u32> = match input {
            CoordInput::Unsigned(n) => if *n < COORD_LIMIT {
                Some(*n as u32)
            } else {
                None
            },
            CoordInput::Signed(n) => if 0 <= *n && *n < COORD_LIMIT as i64 {
                Some(*n as u32)
            } else {
                None
            },
            CoordInput::Text(s) => parse_small_number(s.as_str()),
        };
        match v {
            Some(v) => Ok(Coord(v)),
            None => Err(DecodeError::InvalidCoord(copy_input(input))),
        }
    }
}

/// A stop, as decoded.
#[derive(Clone, Debug, PartialEq, Eq)]
pub struct Station {
    pub id: String,
    pub name: String,
    pub x: Coord,
    pub y: Coord,
}

/// A stop, as the upstream service sent it.
#[derive(Clone, Debug, PartialEq, Eq)]
pub struct RawStation {
    pub id: String,
    pub name: String,
    pub x: CoordInput,
    pub y: CoordInput,
}

/// One scheduled departure, as decoded.
#[derive(Clone, Debug, PartialEq, Eq)]
pub struct Connection {
    pub time: LocalDateTime,
    pub line_ty: String,
    pub line_nr: String,
    pub ty: String,
    pub ty_name: String,
    pub line: String,
    pub operator: String,
    /// Background and foreground hex colors, written `bg~fg`.
    pub color: String,
    pub number: String,
    pub terminal: Station,
    pub dep_delay: Option<String>,
}

/// One scheduled departure, as the upstream service sent it.
#[derive(Clone, Debug, PartialEq, Eq)]
pub struct RawConnection {
    /// `YYYY-MM-DD HH:MM:SS`, local time.
    pub time: String,
    pub line_ty: Option<String>,
    pub line_nr: Option<String>,
    pub ty: String,
    pub ty_name: String,
    pub line: String,
    pub operator: String,
    pub color: String,
    pub number: String,
    pub terminal: RawStation,
    pub dep_delay: Option<String>,
}

/// A stop and its departures, in the order the upstream service gave them.
#[derive(Clone, Debug, PartialEq, Eq)]
pub struct Stationboard {
    pub stop: Station,
    pub connections: Vec<Connection>,
}

/// The upstream service's answer: data, or messages that say why there is none.
#[derive(Clone, Debug, PartialEq, Eq)]
pub struct Response {
    pub stop: Option<RawStation>,
    pub connections: Option<Vec<RawConnection>>,
    pub messages: Option<Vec<String>>,
    pub request: String,
    pub eof: u8,
}

pub open spec fn spec_decode_station(raw: RawStation) -> Result<Station, DecodeError> {
    match spec_parse_coord(raw.x) {
        None => Err(DecodeError::InvalidCoord(raw.x)),
        Some(x) => match spec_parse_coord(raw.y) {
            None => Err(DecodeError::InvalidCoord(raw.y)),
            Some(y) => Ok(Station { id: raw.id, name: raw.name, x, y }),
        },
    }
}

/// Whether a time text names a wall-clock time that exists.
pub open spec fn time_text_valid(t: String) -> bool {
    spec_parse_wall_clock(encode_utf8(t@)) matches Some(f) && valid_wall_clock(f)
}

/// `c` is what `raw` decodes to: the same texts, an empty one where `raw` has
/// none for a line's kind or number, the time that the text names, and the
/// decoded terminal.
pub open spec fn connection_matches(raw: RawConnection, c: Connection) -> bool {
    &&& c.time.wf()
    &&& spec_parse_wall_clock(encode_utf8(raw.time@)) == Some(c.time.wall_clock())
    &&& (raw.line_ty matches Some(t) ==> c.line_ty == t)
    &&& (raw.line_ty is None ==> c.line_ty@ == Seq::<char>::empty())
    &&& (raw.line_nr matches Some(t) ==> c.line_nr == t)
    &&& (raw.line_nr is None ==> c.line_nr@ == Seq::<char>::empty())
    &&& c.ty == raw.ty
    &&& c.ty_name == raw.ty_name
    &&& c.line == raw.line
    &&& c.operator == raw.operator
    &&& c.color == raw.color
    &&& c.number == raw.number
    &&& spec_decode_station(raw.terminal) == Ok::<Station, DecodeError>(c.terminal)
    &&& c.dep_delay == raw.dep_delay
}

/// The errors that a connection can give: its time, or its terminal's
/// coordinates.
pub open spec fn connection_error(raw: RawConnection, e: DecodeError) -> bool {
    ||| e == DecodeError::InvalidTime(raw.time)
    ||| spec_decode_station(raw.terminal) == Err::<Station, DecodeError>(e)
}

pub open spec fn malformed_message() -> Seq<char> {
    "malformed response from backend"@
}

/// What a response without a stop or without connections decodes to: the last
/// message, or a malformed-response error when there is none.
pub open spec fn missing_data_error(messages: Seq<String>, e: DecodeError) -> bool {
    if messages.len() > 0 {
        e == DecodeError::Upstream(messages.last())
    } else {
        e matches DecodeError::Malformed(m) && m@ == malformed_message()
    }
}

pub open spec fn messages_of(r: Response) -> Seq<String> {
    match r.messages {
        Some(m) => m@,
        None => seq![],
    }
}

fn clone_opt(s: &Option<String>) -> (r: Option<String>)
    ensures
        r == *s,
{
    match s {
        Some(t) => Some(t.clone()),
        None => None,
    }
}

fn or_default(s: &Option<String>) -> (r: String)
    ensures
        s matches Some(t) ==> r == t,
        s is None ==> r@ == Seq::<char>::empty(),
{
    match s {
        Some(t) => t.clone(),
        None => String::new(),
    }
}

/// Decodes a stop's coordinates.
pub fn decode_station(raw: &RawStation) -> (r: Result<Station, DecodeError>)
    ensures
        r == spec_decode_station(*raw),
{
    let x = match Coord::parse(&raw.x) {
        Ok(x) => x,
        Err(e) => return Err(e),
    };
    let y = match Coord::parse(&raw.y) {
        Ok(y) => y,
        Err(e) => return Err(e),
    };
    Ok(Station { id: raw.id.clone(), name: raw.name.clone(), x, y })
}

/// `t` is a time that the text `raw.time` names, if it is any time.
pub open spec fn time_fits(raw: RawConnection, t: Option<LocalDateTime>) -> bool {
    t matches Some(x) ==> x.wf() && spec_parse_wall_clock(encode_utf8(raw.time@)) == Some(x.wall_clock())
}

/// A departure decodes when its time was read and its terminal decodes.
pub open spec fn decodes(raw: RawConnection, t: Option<LocalDateTime>) -> bool {
    t is Some && spec_decode_station(raw.terminal) is Ok
}

/// The error of a departure that does not decode: its time first, then its
/// terminal.
pub open spec fn decode_error(raw: RawConnection, t: Option<LocalDateTime>) -> DecodeError {
    if t is None {
        DecodeError::InvalidTime(raw.time)
    } else {
        spec_decode_station(raw.terminal)->Err_0
    }
}

/// `k` is the first departure that does not decode.
pub open spec fn first_failure(raw: Seq<RawConnection>, times: Seq<Option<LocalDateTime>>, k: int) -> bool {
    &&& 0 <= k < raw.len()
    &&& !decodes(raw[k], times[k])
    &&& forall|j: int| 0 <= j < k ==> decodes(#[trigger] raw[j], times[j])
}

/// `k` is the first departure whose time text or terminal is wrong, or whose
/// time the local time zone did not have; every one before it decodes.
pub open spec fn first_bad_connection(raw: Seq<RawConnection>, k: int, e: DecodeError) -> bool {
    &&& 0 <= k < raw.len()
    &&& forall|j: int|
        0 <= j < k ==> time_text_valid(#[trigger] raw[j].time) && spec_decode_station(raw[j].terminal) is Ok
    &&& {
        ||| e == DecodeError::InvalidTime(raw[k].time)
        ||| (time_text_valid(raw[k].time) && spec_decode_station(raw[k].terminal) == Err::<Station, DecodeError>(e))
    }
}

/// `c` is what departure `raw` gives with time `t`.
#[verifier::opaque]
pub open spec fn built_from(raw: RawConnection, t: Option<LocalDateTime>, c: Connection) -> bool {
    decodes(raw, t) && connection_matches(raw, c) && c.time == t->Some_0
}

proof fn lemma_built_decode(
    raw: Seq<RawConnection>,
    times: Seq<Option<LocalDateTime>>,
    out: Seq<Connection>,
    n: int,
)
    requires
        0 <= n <= raw.len(),
        times.len() == raw.len(),
        out.len() >= n,
        forall|k: int| 0 <= k < n ==> built_from(#[trigger] raw[k], times[k], out[k]),
    ensures
        forall|k: int| 0 <= k < n ==> decodes(#[trigger] raw[k], times[k]),
        forall|k: int|
            0 <= k < n ==> connection_matches(#[trigger] raw[k], out[k]) && out[k].time == times[k]->Some_0,
{
    reveal(built_from);
    assert forall|k: int| 0 <= k < n implies decodes(#[trigger] raw[k], times[k]) by {
        assert(built_from(raw[k], times[k], out[k]));
    }
    assert forall|k: int| 0 <= k < n implies connection_matches(#[trigger] raw[k], out[k]) && out[k].time
        == times[k]->Some_0 by {
        assert(built_from(raw[k], times[k], out[k]));
    }
}

/// Builds a departure from its raw fields and the time read from its text
/// (`None` when there was none): the time's error, else the terminal's, else
/// the departure.
pub fn connection_from(raw: &RawConnection, time: Option<LocalDateTime>) -> (r: Result<Connection, DecodeError>)
    requires
        time_fits(*raw, time),
    ensures
        time is None ==> r == Err::<Connection, DecodeError>(DecodeError::InvalidTime(raw.time)),
        time matches Some(t) ==> match spec_decode_station(raw.terminal) {
            Ok(s) => r matches Ok(c) && c.time == t && c.terminal == s && connection_matches(*raw, c),
            Err(e) => r == Err::<Connection, DecodeError>(e),
        },
{
    let time = match time {
        Some(t) => t,
        None => return Err(DecodeError::InvalidTime(raw.time.clone())),
    };
    let terminal = match decode_station(&raw.terminal) {
        Ok(s) => s,
        Err(e) => return Err(e),
    };
    Ok(
        Connection {
            time,
            line_ty: or_default(&raw.line_ty),
            line_nr: or_default(&raw.line_nr),
            ty: raw.ty.clone(),
            ty_name: raw.ty_name.clone(),
            line: raw.line.clone(),
            operator: raw.operator.clone(),
            color: raw.color.clone(),
            number: raw.number.clone(),
            terminal,
            dep_delay: clone_opt(&raw.dep_delay),
        },
    )
}

/// Reads a departure's time in the local time zone: `None` when the text is
/// not a valid `YYYY-MM-DD HH:MM:SS` time or the zone skips or repeats it.
pub fn read_time(raw: &RawConnection) -> (r: Option<LocalDateTime>)
    ensures
        time_fits(*raw, r),
        !time_text_valid(raw.time) ==> r is None,
        r is Some ==> time_text_valid(raw.time),
{
    match deserialize(raw.time.as_str()) {
        Ok(t) => Some(t),
        Err(_) => None,
    }
}

/// Decodes a departure: its time is read in the local time zone, then the
/// rest is built by `connection_from`.
pub fn decode_connection(raw: &RawConnection) -> (r: Result<Connection, DecodeError>)
    ensures
        r matches Ok(c) ==> connection_matches(*raw, c),
        r matches Err(e) ==> connection_error(*raw, e),
        !time_text_valid(raw.time) ==> r == Err::<Connection, DecodeError>(
            DecodeError::InvalidTime(raw.time),
        ),
        time_text_valid(raw.time) && spec_decode_station(raw.terminal) is Err ==> r is Err && (
        r->Err_0 == DecodeError::InvalidTime(raw.time) || r->Err_0 == spec_decode_station(
            raw.terminal,
        )->Err_0),
        r is Err && time_text_valid(raw.time) && spec_decode_station(raw.terminal) is Ok ==> r
            == Err::<Connection, DecodeError>(DecodeError::InvalidTime(raw.time)),
{
    let time = read_time(raw);
    connection_from(raw, time)
}

/// Builds departures from their raw fields and their times, in order: all of
/// them, or the error of the first that does not decode.
pub fn connections_from(raw: &Vec<RawConnection>, times: &Vec<Option<LocalDateTime>>) -> (r: Result<
    Vec<Connection>,
    DecodeError,
>)
    requires
        times@.len() == raw@.len(),
        forall|i: int| 0 <= i < raw@.len() ==> time_fits(#[trigger] raw@[i], times@[i]),
    ensures
        r is Ok <==> forall|i: int| 0 <= i < raw@.len() ==> decodes(#[trigger] raw@[i], times@[i]),
        r matches Ok(v) ==> v@.len() == raw@.len() && forall|i: int|
            0 <= i < raw@.len() ==> connection_matches(#[trigger] raw@[i], v@[i]) && v@[i].time
                == times@[i]->Some_0,
        r matches Err(e) ==> exists|k: int|
            first_failure(raw@, times@, k) && e == decode_error(#[trigger] raw@[k], times@[k]),
{
    let mut out: Vec<Connection> = Vec::new();
    let mut i: usize = 0;
    while i < raw.len()
        invariant
            i <= raw@.len(),
            times@.len() == raw@.len(),
            forall|k: int| 0 <= k < raw@.len() ==> time_fits(#[trigger] raw@[k], times@[k]),
            out@.len() == i,
            forall|k: int| 0 <= k < i ==> built_from(#[trigger] raw@[k], times@[k], out@[k]),
        decreases raw@.len() - i,
    {
        assert(time_fits(raw@[i as int], times@[i as int]));
        let t = times[i];
        match connection_from(&raw[i], t) {
            Ok(c) => {
                proof {
                    reveal(built_from);
                }
                out.push(c);
            },
            Err(e) => {
                proof {
                    lemma_built_decode(raw@, times@, out@, i as int);
                }
                assert(first_failure(raw@, times@, i as int));
                return Err(e);
            },
        }
        i = i + 1;
    }
    proof {
        lemma_built_decode(raw@, times@, out@, i as int);
    }
    Ok(out)
}

/// Reads the times of departures in the local time zone, in order.
pub fn read_times(raw: &Vec<RawConnection>) -> (r: Vec<Option<LocalDateTime>>)
    ensures
        r@.len() == raw@.len(),
        forall|i: int|
            0 <= i < raw@.len() ==> time_fits(#[trigger] raw@[i], r@[i]) && (!time_text_valid(raw@[i].time)
                ==> r@[i] is None) && (r@[i] is Some ==> time_text_valid(raw@[i].time)),
{
    let mut out: Vec<Option<LocalDateTime>> = Vec::new();
    let mut i: usize = 0;
    while i < raw.len()
        invariant
            i <= raw@.len(),
            out@.len() == i,
            forall|k: int|
                0 <= k < i ==> time_fits(#[trigger] raw@[k], out@[k]) && (!time_text_valid(raw@[k].time)
                    ==> out@[k] is None) && (out@[k] is Some ==> time_text_valid(raw@[k].time)),
        decreases raw@.len() - i,
    {
        out.push(read_time(&raw[i]));
        i = i + 1;
    }
    out
}

proof fn lemma_failure_is_bad_connection(
    raw: Seq<RawConnection>,
    times: Seq<Option<LocalDateTime>>,
    k: int,
    e: DecodeError,
)
    requires
        times.len() == raw.len(),
        forall|i: int|
            0 <= i < raw.len() ==> (#[trigger] times[i] is Some ==> time_text_valid(raw[i].time)),
        first_failure(raw, times, k),
        e == decode_error(raw[k], times[k]),
    ensures
        first_bad_connection(raw, k, e),
{
    assert forall|j: int| 0 <= j < k implies time_text_valid(#[trigger] raw[j].time) && spec_decode_station(
        raw[j].terminal,
    ) is Ok by {
        assert(decodes(raw[j], times[j]));
        assert(times[j] is Some);
    }
    assert(times[k] is Some ==> time_text_valid(raw[k].time));
}

/// Decodes departures, keeping their order; the first that fails gives the error.
pub fn decode_connections(raw: &Vec<RawConnection>) -> (r: Result<Vec<Connection>, DecodeError>)
    ensures
        r matches Ok(v) ==> v@.len() == raw@.len() && forall|i: int|
            0 <= i < raw@.len() ==> connection_matches(#[trigger] raw@[i], v@[i]),
        r matches Err(e) ==> exists|k: int| first_bad_connection(raw@, k, e),
{
    let times = read_times(raw);
    let r = connections_from(raw, &times);
    proof {
        if r is Err {
            let e = r->Err_0;
            let k = choose|k: int| first_failure(raw@, times@, k) && e == decode_error(#[trigger] raw@[k], times@[k]);
            lemma_failure_is_bad_connection(raw@, times@, k, e);
        }
    }
    r
}

/// The decision on a response whose parts are decoded: a board when there are
/// both a stop and connections, kept in their order; else the last upstream
/// message; else a malformed-response error.
pub fn decide(stop: Option<Station>, connections: Option<Vec<Connection>>, messages: Vec<String>) -> (r:
    Result<Stationboard, DecodeError>)
    ensures
        match (stop, connections) {
            (Some(s), Some(c)) => r == Ok::<Stationboard, DecodeError>(
                Stationboard { stop: s, connections: c },
            ),
            _ => r matches Err(e) && missing_data_error(messages@, e),
        },
{
    match (stop, connections) {
        (Some(stop), Some(connections)) => Ok(Stationboard { stop, connections }),
        _ => {
            let mut messages = messages;
            match messages.pop() {
                Some(m) => Err(DecodeError::Upstream(m)),
                None => Err(DecodeError::Malformed(String::from_str("malformed response from backend"))),
            }
        },
    }
}

/// The stop is absent or decodes.
pub open spec fn stop_ok(r: Response) -> bool {
    r.stop is None || spec_decode_station(r.stop->Some_0) is Ok
}

/// Every departure decodes with its time.
pub open spec fn all_decode(raw: Seq<RawConnection>, times: Seq<Option<LocalDateTime>>) -> bool {
    forall|i: int| 0 <= i < raw.len() ==> decodes(#[trigger] raw[i], times[i])
}

impl Response {
    /// Decides a response given the times read for its departures (`None` where
    /// a time was not read): the stop's error first, then the first departure
    /// that does not decode, then the board when there are both a stop and
    /// departures, else the last message, else a malformed-response error.
    pub fn decode_with_times(self, times: &Vec<Option<LocalDateTime>>) -> (r: Result<Stationboard, DecodeError>)
        requires
            self.connections is Some ==> times@.len() == self.connections->Some_0@.len() && forall|i: int|
                0 <= i < times@.len() ==> time_fits(#[trigger] self.connections->Some_0@[i], times@[i]),
        ensures
            self.stop is Some && spec_decode_station(self.stop->Some_0) is Err ==> (r is Err && r->Err_0
                == spec_decode_station(self.stop->Some_0)->Err_0),
            stop_ok(self) && self.connections is Some && !all_decode(self.connections->Some_0@, times@) ==> (
            r is Err && exists|k: int|
                first_failure(self.connections->Some_0@, times@, k) && r->Err_0 == decode_error(
                    #[trigger] self.connections->Some_0@[k],
                    times@[k],
                )),
            stop_ok(self) && self.stop is Some && self.connections is Some && all_decode(
                self.connections->Some_0@,
                times@,
            ) ==> (r is Ok && spec_decode_station(self.stop->Some_0) == Ok::<Station, DecodeError>(
                r->Ok_0.stop,
            ) && r->Ok_0.connections@.len() == self.connections->Some_0@.len() && forall|i: int|
                0 <= i < r->Ok_0.connections@.len() ==> connection_matches(
                    #[trigger] self.connections->Some_0@[i],
                    r->Ok_0.connections@[i],
                ) && r->Ok_0.connections@[i].time == times@[i]->Some_0),
            stop_ok(self) && (self.stop is None || self.connections is None) && (self.connections is None
                || all_decode(self.connections->Some_0@, times@)) ==> (r is Err && missing_data_error(
                messages_of(self),
                r->Err_0,
            )),
    {
        let stop = match &self.stop {
            Some(raw) => match decode_station(raw) {
                Ok(s) => Some(s),
                Err(e) => return Err(e),
            },
            None => None,
        };
        let connections = match &self.connections {
            Some(raw) => match connections_from(raw, times) {
                Ok(v) => Some(v),
                Err(e) => return Err(e),
            },
            None => None,
        };
        let messages = match self.messages {
            Some(m) => m,
            None => Vec::new(),
        };
        decide(stop, connections, messages)
    }

    /// Decodes the upstream answer, reading departure times in the local time
    /// zone, then deciding by `decode_with_times`. Succeeds only when it has
    /// both a stop and connections, and they all decode; the connections keep
    /// their order. A stop that does not decode gives its error; else the first
    /// departure that does not decode gives its own; a response without a stop
    /// or without connections gives its last message, or a malformed-response
    /// error when it has none.
    pub fn decode(self) -> (r: Result<Stationboard, DecodeError>)
        ensures
            r is Ok ==> self.stop is Some && self.connections is Some,
            r matches Ok(b) ==> {
                &&& spec_decode_station(self.stop->Some_0) == Ok::<Station, DecodeError>(b.stop)
                &&& b.connections@.len() == self.connections->Some_0@.len()
                &&& forall|i: int|
                    0 <= i < b.connections@.len() ==> connection_matches(
                        #[trigger] self.connections->Some_0@[i],
                        b.connections@[i],
                    )
            },
            self.stop is Some && spec_decode_station(self.stop->Some_0) is Err ==> (r is Err && r->Err_0
                == spec_decode_station(self.stop->Some_0)->Err_0),
            stop_ok(self) && self.connections is None ==> (r is Err && missing_data_error(
                messages_of(self),
                r->Err_0,
            )),
            r matches Err(e) ==> {
                ||| (self.stop is Some && spec_decode_station(self.stop->Some_0) == Err::<Station, DecodeError>(e))
                ||| (stop_ok(self) && self.connections is Some && exists|k: int|
                    first_bad_connection(self.connections->Some_0@, k, e))
                ||| (stop_ok(self) && (self.stop is None || self.connections is None) && missing_data_error(
                    messages_of(self),
                    e,
                ))
            },
    {
        let times = match &self.connections {
            Some(raw) => read_times(raw),
            None => Vec::new(),
        };
        let ghost this = self;
        let r = self.decode_with_times(&times);
        proof {
            if r is Err && stop_ok(this) && this.connections is Some && !all_decode(
                this.connections->Some_0@,
                times@,
            ) {
                let cs = this.connections->Some_0@;
                let e = r->Err_0;
                let k = choose|k: int| first_failure(cs, times@, k) && e == decode_error(#[trigger] cs[k], times@[k]);
                lemma_failure_is_bad_connection(cs, times@, k, e);
            }
        }
        r
    }
}

} // verus!
