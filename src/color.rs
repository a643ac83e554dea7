//! Colors, styles, and the hex colors of a connection's color field.

use vstd::prelude::*;
use vstd::utf8::encode_utf8;

verus! {

/// An explicit 24-bit color.
#[derive(Clone, Copy, Debug, PartialEq, Eq, Structural)]
pub struct Rgb(pub u8, pub u8, pub u8);

/// A display color: one of the eight basic terminal colors or an explicit triple.
#[derive(Clone, Copy, Debug, PartialEq, Eq, Structural)]
pub enum TextColor {
    Black,
    Blue,
    Green,
    Red,
    Cyan,
    Magenta,
    Yellow,
    White,
    Rgb(u8, u8, u8),
}

/// How one run of text is shown.
#[derive(Clone, Copy, Debug, PartialEq, Eq, Structural)]
pub struct ColorSpec {
    pub fg: Option<TextColor>,
    pub bg: Option<TextColor>,
    pub bold: bool,
    pub underline: bool,
}

/// The colors that a connection's `bg~fg` color field asks for.
#[derive(Clone, Copy, Debug, PartialEq, Eq, Structural)]
pub struct Colored {
    pub bg: Option<Rgb>,
    pub fg: Option<Rgb>,
    /// Whether the run is framed; the color field never asks for a frame.
    pub border: bool,
}

pub open spec fn as_text_color(c: Option<Rgb>) -> Option<TextColor> {
    match c {
        Some(Rgb(r, g, b)) => Some(TextColor::Rgb(r, g, b)),
        None => None,
    }
}

pub open spec fn hex_value(b: u8) -> Option<u8> {
    if 0x30 <= b <= 0x39 {
        Some((b - 0x30) as u8)
    } else if 0x61 <= b <= 0x66 {
        Some((b - 0x61 + 10) as u8)
    } else if 0x41 <= b <= 0x46 {
        Some((b - 0x41 + 10) as u8)
    } else {
        None
    }
}

pub open spec fn all_hex(t: Seq<u8>) -> bool {
    forall|i: int| 0 <= i < t.len() ==> (#[trigger] hex_value(t[i])) is Some
}

pub open spec fn nib(t: Seq<u8>, i: int) -> int {
    hex_value(t[i])->Some_0 as int
}

/// A hex color token: three digits, each doubled (`f0a` is `ff00aa`), or six digits.
pub open spec fn spec_parse_hex_color(t: Seq<u8>) -> Option<Rgb> {
    if !all_hex(t) {
        None
    } else if t.len() == 3 {
        Some(Rgb((nib(t, 0) * 17) as u8, (nib(t, 1) * 17) as u8, (nib(t, 2) * 17) as u8))
    } else if t.len() == 6 {
        Some(
            Rgb(
                (nib(t, 0) * 16 + nib(t, 1)) as u8,
                (nib(t, 2) * 16 + nib(t, 3)) as u8,
                (nib(t, 4) * 16 + nib(t, 5)) as u8,
            ),
        )
    } else {
        None
    }
}

/// Index of the first `~` at or after `from`, or the length when there is none.
pub open spec fn tilde_from(b: Seq<u8>, from: int) -> int
    decreases b.len() - from,
{
    if from >= b.len() {
        b.len() as int
    } else if b[from] == 0x7e {
        from
    } else {
        tilde_from(b, from + 1)
    }
}

/// The colors of a `bg~fg` field: the first token is the background, the second
/// (if any) the foreground; what follows a second `~` is ignored.
pub open spec fn spec_parse_colored(b: Seq<u8>) -> Colored {
    let first_end = tilde_from(b, 0);
    let bg = spec_parse_hex_color(b.subrange(0, first_end));
    let fg = if first_end < b.len() {
        let second_end = tilde_from(b, first_end + 1);
        spec_parse_hex_color(b.subrange(first_end + 1, second_end))
    } else {
        None
    };
    Colored { bg, fg, border: false }
}

proof fn lemma_tilde_from_bounds(b: Seq<u8>, from: int)
    requires
        0 <= from <= b.len(),
    ensures
        from <= tilde_from(b, from) <= b.len(),
        tilde_from(b, from) < b.len() ==> b[tilde_from(b, from)] == 0x7e,
        forall|k: int| from <= k < tilde_from(b, from) ==> b[k] != 0x7e,
    decreases b.len() - from,
{
    if from < b.len() && b[from] != 0x7e {
        lemma_tilde_from_bounds(b, from + 1);
    }
}

fn hex_digit(b: u8) -> (r: Option<u8>)
    ensures
        r == hex_value(b),
        r is Some ==> r->Some_0 < 16,
{
    if 0x30 <= b && b <= 0x39 {
        Some(b - 0x30)
    } else if 0x61 <= b && b <= 0x66 {
        Some(b - 0x61 + 10)
    } else if 0x41 <= b && b <= 0x46 {
        Some(b - 0x41 + 10)
    } else {
        None
    }
}

/// Decodes the hex color token `b[start..end]`.
pub fn parse_hex_color(b: &[u8], start: usize, end: usize) -> (r: Option<Rgb>)
    requires
        start <= end <= b@.len(),
    ensures
        r == spec_parse_hex_color(b@.subrange(start as int, end as int)),
{
    let ghost t = b@.subrange(start as int, end as int);
    let len = end - start;
    if len != 3 && len != 6 {
        return None;
    }
    let mut digits: Vec<u8> = Vec::new();
    let mut i: usize = start;
    while i < end
        invariant
            start <= i <= end <= b@.len(),
            t == b@.subrange(start as int, end as int),
            digits@.len() == i - start,
            forall|k: int| 0 <= k < digits@.len() ==> hex_value(t[k]) == Some(#[trigger] digits@[k]),
            forall|k: int| 0 <= k < digits@.len() ==> #[trigger] digits@[k] < 16,
        decreases end - i,
    {
        match hex_digit(b[i]) {
            Some(d) => digits.push(d),
            None => {
                assert(hex_value(t[i - start]) is None);
                return None;
            },
        }
        i = i + 1;
    }
    assert(all_hex(t)) by {
        assert forall|k: int| 0 <= k < t.len() implies (#[trigger] hex_value(t[k])) is Some by {
            assert(hex_value(t[k]) == Some(digits@[k]));
        }
    }
    if len == 3 {
        Some(Rgb(digits[0] * 17, digits[1] * 17, digits[2] * 17))
    } else {
        Some(Rgb(digits[0] * 16 + digits[1], digits[2] * 16 + digits[3], digits[4] * 16 + digits[5]))
    }
}

fn find_tilde(b: &[u8], from: usize) -> (r: usize)
    requires
        from <= b@.len(),
    ensures
        r == tilde_from(b@, from as int),
{
    let mut i = from;
    while i < b.len()
        invariant
            from <= i <= b@.len(),
            tilde_from(b@, from as int) == tilde_from(b@, i as int),
        decreases b@.len() - i,
    {
        if b[i] == 0x7e {
            return i;
        }
        i = i + 1;
    }
    i
}

impl Colored {
    /// Reads a connection's `bg~fg` color field. A token that is not a three- or
    /// six-digit hex color gives no color for its slot; this never fails.
    pub fn parse(field: &str) -> (r: Colored)
        ensures
            r == spec_parse_colored(encode_utf8(field@)),
    {
        let b = field.as_bytes();
        let first_end = find_tilde(b, 0);
        proof {
            lemma_tilde_from_bounds(b@, 0);
        }
        let bg = parse_hex_color(b, 0, first_end);
        let fg = if first_end < b.len() {
            let second_end = find_tilde(b, first_end + 1);
            proof {
                lemma_tilde_from_bounds(b@, first_end + 1);
            }
            parse_hex_color(b, first_end + 1, second_end)
        } else {
            None
        };
        Colored { bg, fg, border: false }
    }
}

pub fn rgb_color(c: Option<Rgb>) -> (r: Option<TextColor>)
    ensures
        r == as_text_color(c),
{
    match c {
        Some(Rgb(r, g, b)) => Some(TextColor::Rgb(r, g, b)),
        None => None,
    }
}

} // verus!
