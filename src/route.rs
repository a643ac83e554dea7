//! Which page a request asks for, and which writer suits the client.

use vstd::prelude::*;
use vstd::string::StringExecFns;
use vstd::utf8::encode_utf8;

use crate::html::lit;
use crate::terminal::Mode;

verus! {

/// What a request asks for.
#[derive(Clone, Debug, PartialEq, Eq)]
pub enum Route {
    /// The help page.
    Usage,
    /// Nothing here.
    NotFound,
    /// A search for stops; the text after `/~`.
    Search(String),
    /// A stop's departures; the text after `/`.
    Lookup(String),
}

pub open spec fn starts_with(s: Seq<u8>, p: Seq<u8>) -> bool {
    s.len() >= p.len() && s.subrange(0, p.len() as int) == p
}

pub open spec fn contains_at(s: Seq<u8>, p: Seq<u8>, i: int) -> bool {
    0 <= i && i + p.len() <= s.len() && s.subrange(i, i + p.len()) == p
}

pub open spec fn contains(s: Seq<u8>, p: Seq<u8>) -> bool {
    exists|i: int| contains_at(s, p, i)
}

/// Whether `s` starts with `p`.
pub fn bytes_start_with(s: &[u8], p: &[u8]) -> (r: bool)
    ensures
        r == starts_with(s@, p@),
{
    if s.len() < p.len() {
        return false;
    }
    let mut i: usize = 0;
    while i < p.len()
        invariant
            i <= p@.len() <= s@.len(),
            s@.subrange(0, i as int) == p@.subrange(0, i as int),
        decreases p@.len() - i,
    {
        if s[i] != p[i] {
            assert(s@.subrange(0, p@.len() as int)[i as int] != p@[i as int]);
            return false;
        }
        assert(s@.subrange(0, i + 1) == s@.subrange(0, i as int).push(s@[i as int]));
        assert(p@.subrange(0, i + 1) == p@.subrange(0, i as int).push(p@[i as int]));
        i = i + 1;
    }
    assert(p@.subrange(0, i as int) == p@);
    true
}

fn bytes_match_at(s: &[u8], p: &[u8], at: usize) -> (r: bool)
    requires
        at + p@.len() <= s@.len(),
    ensures
        r == contains_at(s@, p@, at as int),
{
    let sl = s.len();
    let mut i: usize = 0;
    while i < p.len()
        invariant
            sl == s@.len(),
            at + p@.len() <= s@.len(),
            i <= p@.len(),
            s@.subrange(at as int, at + i) == p@.subrange(0, i as int),
        decreases p@.len() - i,
    {
        if s[at + i] != p[i] {
            assert(s@.subrange(at as int, at + p@.len())[i as int] != p@[i as int]);
            return false;
        }
        assert(s@.subrange(at as int, at + i + 1) == s@.subrange(at as int, at + i).push(s@[at + i]));
        assert(p@.subrange(0, i + 1) == p@.subrange(0, i as int).push(p@[i as int]));
        i = i + 1;
    }
    assert(p@.subrange(0, i as int) == p@);
    true
}

/// Whether `p` occurs in `s`.
pub fn bytes_contain(s: &[u8], p: &[u8]) -> (r: bool)
    ensures
        r == contains(s@, p@),
{
    if s.len() < p.len() {
        return false;
    }
    if p.len() == 0 {
        assert(s@.subrange(0, 0) =~= p@);
        assert(contains_at(s@, p@, 0));
        return true;
    }
    let sl = s.len();
    let mut at: usize = 0;
    while at <= sl - p.len()
        invariant
            sl == s@.len(),
            0 < p@.len() <= s@.len(),
            at <= s@.len() - p@.len() + 1,
            forall|j: int| 0 <= j < at ==> !contains_at(s@, p@, j),
        decreases s@.len() - p@.len() + 1 - at,
    {
        if bytes_match_at(s, p, at) {
            return true;
        }
        at = at + 1;
    }
    assert forall|j: int| !contains_at(s@, p@, j) by {
        if 0 <= j < at {
        }
    }
    false
}

/// The writer that suits a client: HTML for one that accepts `text/html`,
/// ANSI for curl, plain text for the rest.
pub open spec fn spec_choose_mode(accept: Option<Seq<u8>>, user_agent: Option<Seq<u8>>) -> Mode {
    if accept matches Some(a) && contains(a, lit("text/html")) {
        Mode::Html
    } else if user_agent matches Some(u) && starts_with(u, lit("curl/")) {
        Mode::Ansi
    } else {
        Mode::Plain
    }
}

pub open spec fn opt_bytes(s: Option<&str>) -> Option<Seq<u8>> {
    match s {
        Some(s) => Some(encode_utf8(s@)),
        None => None,
    }
}

/// Picks the writer from the `Accept` and `User-Agent` headers.
pub fn choose_mode(accept: Option<&str>, user_agent: Option<&str>) -> (r: Mode)
    ensures
        r == spec_choose_mode(opt_bytes(accept), opt_bytes(user_agent)),
{
    if let Some(a) = accept {
        if bytes_contain(a.as_bytes(), "text/html".as_bytes()) {
            return Mode::Html;
        }
    }
    if let Some(u) = user_agent {
        if bytes_start_with(u.as_bytes(), "curl/".as_bytes()) {
            return Mode::Ansi;
        }
    }
    Mode::Plain
}

fn str_equal(s: &str, p: &str) -> (r: bool)
    ensures
        r == (s@ == p@),
{
    let n = s.unicode_len();
    if n != p.unicode_len() {
        return false;
    }
    let mut i: usize = 0;
    while i < n
        invariant
            n == s@.len() == p@.len(),
            i <= n,
            forall|k: int| 0 <= k < i ==> s@[k] == p@[k],
        decreases n - i,
    {
        if s.get_char(i) != p.get_char(i) {
            return false;
        }
        i = i + 1;
    }
    assert(s@ == p@);
    true
}

fn str_starts_with(s: &str, p: &str) -> (r: bool)
    ensures
        r == (s@.len() >= p@.len() && s@.subrange(0, p@.len() as int) == p@),
{
    let n = p.unicode_len();
    if s.unicode_len() < n {
        return false;
    }
    let head = s.substring_char(0, n);
    str_equal(head, p)
}

/// Where a request goes: `GET /help` or `GET /:help` to the help page, `GET
/// /favicon.ico` nowhere, `GET /~q` to a search for `q`, `GET /s` to the
/// departures of `s`, anything else nowhere.
pub fn route(is_get: bool, path: &str) -> (r: Route)
    ensures
        !is_get ==> r == Route::NotFound,
        is_get && (path@ == "/:help"@ || path@ == "/help"@) ==> r == Route::Usage,
        is_get && path@ == "/favicon.ico"@ ==> r == Route::NotFound,
        is_get && path@ != "/:help"@ && path@ != "/help"@ && path@ != "/favicon.ico"@ ==> {
            if path@.len() >= 2 && path@.subrange(0, 2) == "/~"@ {
                r matches Route::Search(q) && q@ == path@.skip(2)
            } else if path@.len() >= 1 && path@[0] == '/' {
                r matches Route::Lookup(s) && s@ == path@.skip(1)
            } else {
                r == Route::NotFound
            }
        },
{
    proof {
        reveal_strlit("/:help");
        reveal_strlit("/help");
        reveal_strlit("/favicon.ico");
        assert("/:help"@.len() == 6 && "/help"@.len() == 5 && "/favicon.ico"@.len() == 12);
    }
    if !is_get {
        return Route::NotFound;
    }
    if str_equal(path, "/:help") || str_equal(path, "/help") {
        return Route::Usage;
    }
    if str_equal(path, "/favicon.ico") {
        return Route::NotFound;
    }
    let n = path.unicode_len();
    if str_starts_with(path, "/~") {
        proof {
            reveal_strlit("/~");
        }
        let q = path.substring_char(2, n);
        return Route::Search(String::from_str(q));
    }
    proof {
        reveal_strlit("/");
    }
    if str_starts_with(path, "/") {
        assert(path@[0] == "/"@[0]);
        let s = path.substring_char(1, n);
        return Route::Lookup(String::from_str(s));
    }
    proof {
        if path@.len() >= 1 && path@[0] == '/' {
            assert(path@.subrange(0, 1) == "/"@);
        }
    }
    Route::NotFound
}

/// The address of the departures of `station` on the timetable service.
pub fn stationboard_url(station: &str) -> (r: String)
    ensures
        r@ == "https://timetable.search.ch/api/stationboard.json?stop="@ + station@ + "&show_delays=1"@,
{
    let mut url = String::from_str("https://timetable.search.ch/api/stationboard.json?stop=");
    url.append(station);
    url.append("&show_delays=1");
    url
}

} // verus!
