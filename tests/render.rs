use stationboard::ansi::{ansi_reset_style, ansi_style};
use stationboard::backend::{Connection, Coord, Station, Stationboard};
use stationboard::render::{centered_bytes, left_justified_bytes};
use stationboard::color::{parse_hex_color, ColorSpec, Colored, Rgb, TextColor};
use stationboard::html::Html;
use stationboard::local_datetime::LocalDateTime;
use stationboard::terminal::Terminal;

fn hex(s: &str) -> Option<Rgb> {
    parse_hex_color(s.as_bytes(), 0, s.len())
}

fn board() -> Stationboard {
    let time = LocalDateTime { year: 2020, month: 1, day: 2, hour: 8, minute: 15, second: 0, utc_offset: 3600 };
    let terminal = Station { id: "8506000".to_string(), name: "Winterthur".to_string(), x: Coord(697000), y: Coord(261000) };
    Stationboard {
        stop: Station { id: "8503000".to_string(), name: "Zürich HB".to_string(), x: Coord(683000), y: Coord(248000) },
        connections: vec![Connection {
            time,
            line_ty: "S".to_string(),
            line_nr: "4".to_string(),
            ty: "strain".to_string(),
            ty_name: "S-Bahn".to_string(),
            line: "S4".to_string(),
            operator: "SBB".to_string(),
            color: "f00~fff".to_string(),
            number: "18456".to_string(),
            terminal,
            dep_delay: Some("+2".to_string()),
        }],
    }
}

fn contains(hay: &[u8], needle: &[u8]) -> bool {
    hay.windows(needle.len()).any(|w| w == needle)
}

#[test]
fn hex_colors() {
    assert_eq!(hex("f0a"), Some(Rgb(0xff, 0x00, 0xaa)));
    assert_eq!(hex("1a2b3c"), Some(Rgb(0x1a, 0x2b, 0x3c)));
    assert_eq!(hex("FFF"), Some(Rgb(0xff, 0xff, 0xff)));
    assert_eq!(hex("zz"), None);
    assert_eq!(hex("12"), None);
    assert_eq!(hex("12345g"), None);
    assert_eq!(hex("+f0a0b"), None);
    assert_eq!(hex(""), None);
}

#[test]
fn color_field_halves() {
    let c = Colored::parse("f00~fff");
    assert_eq!(c.bg, Some(Rgb(0xff, 0, 0)));
    assert_eq!(c.fg, Some(Rgb(0xff, 0xff, 0xff)));
    let c = Colored::parse("f00");
    assert_eq!((c.bg, c.fg), (Some(Rgb(0xff, 0, 0)), None));
    let c = Colored::parse("~123456~abc");
    assert_eq!((c.bg, c.fg), (None, Some(Rgb(0x12, 0x34, 0x56))));
    let c = Colored::parse("é0~zz");
    assert_eq!((c.bg, c.fg), (None, None));
}

#[test]
fn padding() {
    assert_eq!(centered_bytes("S4", 3), b"S4 ".to_vec());
    assert_eq!(centered_bytes("S", 3), b" S ".to_vec());
    assert_eq!(centered_bytes("", 3), b"   ".to_vec());
    assert_eq!(centered_bytes("IC21", 3), b"IC21".to_vec());
    assert_eq!(left_justified_bytes("Bern", 6), b"Bern  ".to_vec());
    assert_eq!(left_justified_bytes("Zürich", 7), "Zürich ".as_bytes().to_vec());
}

#[test]
fn ansi_sequences() {
    assert_eq!(ansi_reset_style(), b"\x1b[0m".to_vec());
    let spec = ColorSpec { fg: Some(TextColor::Rgb(255, 255, 255)), bg: Some(TextColor::Rgb(255, 0, 0)), bold: true, underline: false };
    assert_eq!(ansi_style(&spec), b"\x1b[0m\x1b[1m\x1b[38;2;255;255;255m\x1b[48;2;255;0;0m".to_vec());
    let spec = ColorSpec { fg: Some(TextColor::White), bg: None, bold: false, underline: true };
    assert_eq!(ansi_style(&spec), b"\x1b[0m\x1b[4m\x1b[37m".to_vec());
}

#[test]
fn ansi_board_end_to_end() {
    let mut t = Terminal::ansi();
    board().ansi_write(&mut t);
    let out = String::from_utf8(t.into_bytes()).unwrap();
    let header = "\x1b[0m\x1b[1m\x1b[37mTimetable for Zürich HB\n\x1b[0m";
    assert!(out.starts_with(header));
    let line = format!(
        "\x1b[0m\x1b[1m\x1b[38;2;255;255;255m\x1b[48;2;255;0;0mS4 \x1b[0m {:<30} 08:15 +2\x1b[0m\n",
        "Winterthur"
    );
    assert_eq!(&out[header.len()..], line);
}

#[test]
fn plain_board() {
    let mut t = Terminal::plain();
    board().ansi_write(&mut t);
    assert_eq!(t.content_type(), "text/plain; charset=UTF-8");
    let out = String::from_utf8(t.into_bytes()).unwrap();
    assert_eq!(out, format!("Timetable for Zürich HB\nS4  {:<30} 08:15 +2\n", "Winterthur"));
}

#[test]
fn html_board() {
    let mut t = Terminal::html("board");
    assert_eq!(t.content_type(), "text/html; charset=UTF-8");
    board().ansi_write(&mut t);
    let out = String::from_utf8(t.into_bytes()).unwrap();
    assert!(out.contains("<span style=\"color:#fff;font-weight: bold;\">Timetable for Zürich HB\n</span>"));
    assert!(out.contains("<span style=\"color:#ffffff;background-color:#ff0000;font-weight: bold;\">S4 </span>"));
    assert!(out.ends_with(&format!("S4 </span> {:<30} 08:15 +2\n", "Winterthur")));
}

#[test]
fn plain_styles_write_nothing() {
    let mut t = Terminal::plain();
    let spec = ColorSpec { fg: Some(TextColor::Red), bg: Some(TextColor::Rgb(1, 2, 3)), bold: true, underline: true };
    t.set_color(&spec);
    t.reset();
    t.reset();
    assert!(!t.supports_color());
    assert!(t.into_bytes().is_empty());
}

#[test]
fn html_spans_never_nest() {
    let mut h = Html::new(Vec::new(), "t");
    let start = h.get_ref().len();
    let spec = ColorSpec { fg: Some(TextColor::Green), bg: None, bold: false, underline: false };
    h.set_color(&spec);
    h.set_color(&spec);
    h.reset();
    h.reset();
    let out = h.into_inner();
    assert_eq!(
        &out[start..],
        b"<span style=\"color:#0f0;\"></span><span style=\"color:#0f0;\"></span>".as_slice()
    );
}

#[test]
fn html_escapes_text() {
    let mut h = Html::new(Vec::new(), "a<b>&\"'");
    let head = String::from_utf8(h.get_ref().clone()).unwrap();
    assert!(head.contains("<title>a&lt;b&gt;&amp;&quot;&#x27;</title>"));
    let start = h.get_ref().len();
    let spec = ColorSpec { fg: None, bg: Some(TextColor::Rgb(0x0a, 0xbc, 0xff)), bold: false, underline: true };
    h.set_color(&spec);
    h.write(b"<b>&");
    let out = h.into_inner();
    assert_eq!(
        &out[start..],
        b"<span style=\"background-color:#0abcff;text-decoration: underline;\">&lt;b&gt;&amp;".as_slice()
    );
    assert!(contains(&out, b"<!doctype html>"));
}

#[test]
fn html_get_mut_edits_output() {
    let mut h = Html::new(b"x".to_vec(), "");
    h.get_mut().push(b'!');
    assert!(h.supports_color());
    let out = h.into_inner();
    assert!(out.starts_with(b"x<!doctype html>"));
    assert!(out.ends_with(b"white-space: pre;\">!"));
}
