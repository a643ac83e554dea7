use stationboard::backend::{
    connection_from, connections_from, decide, decode_connection, Connection, Coord, RawConnection,
    RawStation, Response, Station,
};
use stationboard::error::{CoordInput, DecodeError};
use stationboard::local_datetime::{deserialize, local_time, serialize, LocalDateTime};

fn raw_station(name: &str, x: CoordInput, y: CoordInput) -> RawStation {
    RawStation { id: "8503000".to_string(), name: name.to_string(), x, y }
}

fn raw_connection(time: &str, line: &str) -> RawConnection {
    RawConnection {
        time: time.to_string(),
        line_ty: None,
        line_nr: Some("4".to_string()),
        ty: "strain".to_string(),
        ty_name: "S-Bahn".to_string(),
        line: line.to_string(),
        operator: "SBB".to_string(),
        color: "f00~fff".to_string(),
        number: "18456".to_string(),
        terminal: raw_station("Winterthur", CoordInput::Unsigned(697000), CoordInput::Text("261000".to_string())),
        dep_delay: Some("+2".to_string()),
    }
}

fn response(
    stop: Option<RawStation>,
    connections: Option<Vec<RawConnection>>,
    messages: Option<Vec<String>>,
) -> Response {
    Response { stop, connections, messages, request: "stationboard".to_string(), eof: 1 }
}

fn station() -> Station {
    Station { id: "1".to_string(), name: "A".to_string(), x: Coord(1), y: Coord(2) }
}

#[test]
fn coord_from_string_and_integer() {
    assert_eq!(Coord::parse(&CoordInput::Text("12345".to_string())), Ok(Coord(12345)));
    assert_eq!(Coord::parse(&CoordInput::Unsigned(12345)), Ok(Coord(12345)));
    assert_eq!(Coord::parse(&CoordInput::Signed(12345)), Ok(Coord(12345)));
}

#[test]
fn coord_rejects_negative_large_and_text() {
    assert_eq!(
        Coord::parse(&CoordInput::Signed(-1)),
        Err(DecodeError::InvalidCoord(CoordInput::Signed(-1)))
    );
    assert_eq!(
        Coord::parse(&CoordInput::Unsigned(1_000_000)),
        Err(DecodeError::InvalidCoord(CoordInput::Unsigned(1_000_000)))
    );
    let abc = CoordInput::Text("abc".to_string());
    assert_eq!(Coord::parse(&abc), Err(DecodeError::InvalidCoord(abc.clone())));
    let big = CoordInput::Text("1000000".to_string());
    assert_eq!(Coord::parse(&big), Err(DecodeError::InvalidCoord(big.clone())));
    let empty = CoordInput::Text(String::new());
    assert!(Coord::parse(&empty).is_err());
    let huge = CoordInput::Text("99999999999999999999999".to_string());
    assert!(Coord::parse(&huge).is_err());
}

#[test]
fn coord_edges() {
    assert_eq!(Coord::parse(&CoordInput::Unsigned(0)), Ok(Coord(0)));
    assert_eq!(Coord::parse(&CoordInput::Signed(0)), Ok(Coord(0)));
    assert_eq!(Coord::parse(&CoordInput::Unsigned(999_999)), Ok(Coord(999_999)));
    assert_eq!(Coord::parse(&CoordInput::Text("+42".to_string())), Ok(Coord(42)));
    assert_eq!(Coord::parse(&CoordInput::Text("007".to_string())), Ok(Coord(7)));
    assert!(Coord::parse(&CoordInput::Text("-0".to_string())).is_err());
    assert!(Coord::parse(&CoordInput::Text("12 ".to_string())).is_err());
}

#[test]
fn datetime_reads_fields() {
    let t = deserialize("2020-01-02 03:04:05").unwrap();
    assert_eq!((t.year, t.month, t.day, t.hour, t.minute, t.second), (2020, 1, 2, 3, 4, 5));
    assert!(t.utc_offset > -86400 && t.utc_offset < 86400);
}

#[test]
fn datetime_round_trip() {
    let t = deserialize("2019-12-31 23:59:58").unwrap();
    let text = serialize(&t);
    assert_eq!(text, "2019-12-31 23:59:58");
    assert_eq!(deserialize(&text), Ok(t));
    let early = LocalDateTime { year: 7, month: 2, day: 9, hour: 0, minute: 5, second: 0, utc_offset: 0 };
    assert_eq!(serialize(&early), "0007-02-09 00:05:00");
}

#[test]
fn datetime_rejects_other_shapes() {
    for bad in ["2020-1-02 03:04:05", "2020-01-02T03:04:05", "2020-02-30 00:00:00", "2020-01-02 24:00:00", ""] {
        assert_eq!(deserialize(bad), Err(DecodeError::InvalidTime(bad.to_string())));
    }
    assert!(deserialize("2020-02-29 12:00:00").is_ok());
    assert!(deserialize("2019-02-29 12:00:00").is_err());
}

#[test]
fn decode_keeps_connection_order() {
    let conns = vec![
        raw_connection("2020-01-02 08:15:00", "S4"),
        raw_connection("2020-01-02 08:20:00", "S12"),
        raw_connection("2020-01-02 08:01:00", "IC5"),
    ];
    let r = response(
        Some(raw_station("Zürich HB", CoordInput::Unsigned(683000), CoordInput::Unsigned(248000))),
        Some(conns),
        None,
    );
    let board = r.decode().unwrap();
    assert_eq!(board.stop.name, "Zürich HB");
    assert_eq!(board.stop.x, Coord(683000));
    let lines: Vec<&str> = board.connections.iter().map(|c| c.line.as_str()).collect();
    assert_eq!(lines, vec!["S4", "S12", "IC5"]);
    let c = &board.connections[0];
    assert_eq!(c.line_ty, "");
    assert_eq!(c.line_nr, "4");
    assert_eq!(c.terminal.y, Coord(261000));
    assert_eq!((c.time.hour, c.time.minute), (8, 15));
    assert_eq!(c.dep_delay.as_deref(), Some("+2"));
}

#[test]
fn decode_gives_last_message() {
    let r = response(None, None, Some(vec!["a".to_string(), "b".to_string()]));
    assert_eq!(r.decode(), Err(DecodeError::Upstream("b".to_string())));
    let r = response(
        Some(raw_station("X", CoordInput::Unsigned(1), CoordInput::Unsigned(2))),
        None,
        Some(vec!["unknown station".to_string()]),
    );
    assert_eq!(r.decode(), Err(DecodeError::Upstream("unknown station".to_string())));
}

#[test]
fn decode_without_data_or_messages_is_malformed() {
    let expected = Err(DecodeError::Malformed("malformed response from backend".to_string()));
    assert_eq!(response(None, None, None).decode(), expected);
    assert_eq!(response(None, Some(vec![]), Some(vec![])).decode(), expected);
}

#[test]
fn decode_reports_field_errors() {
    let r = response(
        Some(raw_station("X", CoordInput::Signed(-5), CoordInput::Unsigned(2))),
        Some(vec![]),
        None,
    );
    assert_eq!(r.decode(), Err(DecodeError::InvalidCoord(CoordInput::Signed(-5))));
    let r = response(
        Some(raw_station("X", CoordInput::Unsigned(1), CoordInput::Unsigned(2))),
        Some(vec![raw_connection("yesterday", "S4")]),
        None,
    );
    assert_eq!(r.decode(), Err(DecodeError::InvalidTime("yesterday".to_string())));
}

#[test]
fn decode_connection_defaults_line_fields() {
    let mut raw = raw_connection("2021-06-30 17:45:00", "S4");
    raw.line_nr = None;
    raw.line_ty = Some("S".to_string());
    let c: Connection = decode_connection(&raw).unwrap();
    assert_eq!(c.line_nr, "");
    assert_eq!(c.line_ty, "S");
}

#[test]
fn decide_cases() {
    assert_eq!(
        decide(None, Some(vec![]), vec!["a".to_string(), "b".to_string()]),
        Err(DecodeError::Upstream("b".to_string()))
    );
    assert_eq!(
        decide(Some(station()), None, vec![]),
        Err(DecodeError::Malformed("malformed response from backend".to_string()))
    );
    let board = decide(Some(station()), Some(vec![]), vec!["ignored".to_string()]).unwrap();
    assert_eq!(board.stop, station());
    assert!(board.connections.is_empty());
}

#[test]
fn error_messages() {
    assert_eq!(DecodeError::Upstream("b".to_string()).message(), "b");
    assert_eq!(
        DecodeError::Malformed("malformed response from backend".to_string()).message(),
        "malformed response from backend"
    );
    assert_eq!(DecodeError::InvalidCoord(CoordInput::Signed(-1)).message(), "invalid coordinate: -1");
    assert_eq!(
        DecodeError::InvalidCoord(CoordInput::Signed(i64::MIN)).message(),
        "invalid coordinate: -9223372036854775808"
    );
    assert_eq!(DecodeError::InvalidCoord(CoordInput::Unsigned(1_000_000)).message(), "invalid coordinate: 1000000");
    assert_eq!(DecodeError::InvalidCoord(CoordInput::Unsigned(0)).message(), "invalid coordinate: 0");
    assert_eq!(
        DecodeError::InvalidCoord(CoordInput::Text("abc".to_string())).message(),
        "invalid coordinate: \"abc\""
    );
    assert_eq!(
        DecodeError::InvalidTime("2020-02-30 00:00:00".to_string()).message(),
        "invalid local time: \"2020-02-30 00:00:00\""
    );
}

fn at(hour: u8, minute: u8) -> LocalDateTime {
    LocalDateTime { year: 2020, month: 1, day: 2, hour, minute, second: 0, utc_offset: 3600 }
}

#[test]
fn connection_from_time_then_terminal() {
    let raw = raw_connection("2020-01-02 08:15:00", "S4");
    assert_eq!(connection_from(&raw, None), Err(DecodeError::InvalidTime("2020-01-02 08:15:00".to_string())));
    let c = connection_from(&raw, Some(at(8, 15))).unwrap();
    assert_eq!(c.time, at(8, 15));
    assert_eq!(c.terminal.x, Coord(697000));
    let mut bad = raw.clone();
    bad.terminal.x = CoordInput::Text("east".to_string());
    assert_eq!(
        connection_from(&bad, Some(at(8, 15))),
        Err(DecodeError::InvalidCoord(CoordInput::Text("east".to_string())))
    );
    assert_eq!(connection_from(&bad, None), Err(DecodeError::InvalidTime("2020-01-02 08:15:00".to_string())));
}

#[test]
fn connections_from_first_failure() {
    let raw = vec![
        raw_connection("2020-01-02 08:15:00", "S4"),
        raw_connection("2020-01-02 08:20:00", "S12"),
        raw_connection("2020-01-02 08:25:00", "S5"),
    ];
    let all = vec![Some(at(8, 15)), Some(at(8, 20)), Some(at(8, 25))];
    let v = connections_from(&raw, &all).unwrap();
    let lines: Vec<&str> = v.iter().map(|c| c.line.as_str()).collect();
    assert_eq!(lines, vec!["S4", "S12", "S5"]);
    let gaps = vec![Some(at(8, 15)), None, None];
    assert_eq!(
        connections_from(&raw, &gaps),
        Err(DecodeError::InvalidTime("2020-01-02 08:20:00".to_string()))
    );
}

#[test]
fn decode_with_given_times() {
    let stop = raw_station("Bern", CoordInput::Unsigned(600000), CoordInput::Unsigned(200000));
    let conns = vec![raw_connection("2020-01-02 08:15:00", "S4"), raw_connection("2020-01-02 08:20:00", "S12")];
    let times = vec![Some(at(8, 15)), Some(at(8, 20))];
    let r = response(Some(stop.clone()), Some(conns.clone()), Some(vec!["x".to_string()]));
    let b = r.decode_with_times(&times).unwrap();
    assert_eq!(b.connections.len(), 2);
    assert_eq!(b.connections[1].time, at(8, 20));
    let r = response(None, Some(conns.clone()), Some(vec!["a".to_string(), "b".to_string()]));
    assert_eq!(r.decode_with_times(&times), Err(DecodeError::Upstream("b".to_string())));
    let r = response(None, Some(conns), None);
    assert_eq!(
        r.decode_with_times(&times),
        Err(DecodeError::Malformed("malformed response from backend".to_string()))
    );
}

#[test]
fn local_time_joins_offset() {
    assert_eq!(local_time((2020, 1, 2, 8, 15, 0), Some(3600)), Some(at(8, 15)));
    assert_eq!(local_time((2020, 1, 2, 8, 15, 0), None), None);
    assert_eq!(local_time((2021, 2, 29, 8, 15, 0), Some(0)), None);
    assert_eq!(local_time((2020, 1, 2, 8, 15, 0), Some(86400)), None);
}
