use stationboard::route::{bytes_contain, bytes_start_with, choose_mode, route, stationboard_url, Route};
use stationboard::terminal::{Mode, Terminal};

#[test]
fn routes() {
    assert_eq!(route(true, "/help"), Route::Usage);
    assert_eq!(route(true, "/:help"), Route::Usage);
    assert_eq!(route(true, "/favicon.ico"), Route::NotFound);
    assert_eq!(route(true, "/~bern"), Route::Search("bern".to_string()));
    assert_eq!(route(true, "/Zürich HB"), Route::Lookup("Zürich HB".to_string()));
    assert_eq!(route(true, "/"), Route::Lookup(String::new()));
    assert_eq!(route(true, "help"), Route::NotFound);
    assert_eq!(route(false, "/help"), Route::NotFound);
    assert_eq!(route(false, "/bern"), Route::NotFound);
}

#[test]
fn writer_choice() {
    assert_eq!(choose_mode(Some("text/html,application/xhtml+xml"), Some("curl/8.0")), Mode::Html);
    assert_eq!(choose_mode(Some("*/*"), Some("curl/7.64.1")), Mode::Ansi);
    assert_eq!(choose_mode(None, Some("Wget/1.21")), Mode::Plain);
    assert_eq!(choose_mode(None, Some("xcurl/1")), Mode::Plain);
    assert_eq!(choose_mode(None, None), Mode::Plain);
}

#[test]
fn byte_searches() {
    assert!(bytes_contain(b"abc", b""));
    assert!(bytes_contain(b"xtext/htmlx", b"text/html"));
    assert!(!bytes_contain(b"text/htm", b"text/html"));
    assert!(bytes_start_with(b"curl/", b"curl/"));
    assert!(!bytes_start_with(b"cur", b"curl/"));
}

#[test]
fn url_of_station() {
    assert_eq!(
        stationboard_url("Bern"),
        "https://timetable.search.ch/api/stationboard.json?stop=Bern&show_delays=1"
    );
}

#[test]
fn writer_kinds() {
    let mut t = Terminal::ansi();
    assert!(t.supports_color());
    assert_eq!(t.content_type(), "text/plain; charset=UTF-8");
    t.write(b"a<b");
    t.flush();
    assert_eq!(t.into_bytes(), b"a<b".to_vec());
    let mut h = Terminal::html("");
    assert!(h.supports_color());
    h.write(b"a<b");
    let out = String::from_utf8(h.into_bytes()).unwrap();
    assert!(out.ends_with("pre;\">a&lt;b"));
    assert!(out.starts_with("<!doctype html><html lang=en><head><meta charset=utf-8><title></title>"));
}
