//! ANSI escape sequences for styled runs, as termcolor writes them.

use vstd::prelude::*;

use crate::color::{ColorSpec, TextColor};
use termcolor::WriteColor;

verus! {

/// termcolor's `Color`, with its variants visible, so that the contracts of
/// the wrappers below can say which escape sequence each color gets.
#[verifier::external_type_specification]
pub struct ExTermColor(termcolor::Color);

/// Decimal digits of `n`, without leading zeros.
pub open spec fn decimal_u8(n: u8) -> Seq<u8> {
    if n >= 100 {
        seq![(0x30 + n / 100) as u8, (0x30 + (n / 10) % 10) as u8, (0x30 + n % 10) as u8]
    } else if n >= 10 {
        seq![(0x30 + n / 10) as u8, (0x30 + n % 10) as u8]
    } else {
        seq![(0x30 + n) as u8]
    }
}

/// `ESC [ body m`
pub open spec fn sgr(body: Seq<u8>) -> Seq<u8> {
    seq![0x1bu8, 0x5bu8] + body + seq![0x6du8]
}

/// The escape sequence that selects color `c`, in the foreground when `fg`.
pub open spec fn sgr_color(fg: bool, c: termcolor::Color) -> Seq<u8> {
    let lead: u8 = if fg { 0x33 } else { 0x34 };
    match c {
        termcolor::Color::Black => sgr(seq![lead, 0x30u8]),
        termcolor::Color::Red => sgr(seq![lead, 0x31u8]),
        termcolor::Color::Green => sgr(seq![lead, 0x32u8]),
        termcolor::Color::Yellow => sgr(seq![lead, 0x33u8]),
        termcolor::Color::Blue => sgr(seq![lead, 0x34u8]),
        termcolor::Color::Magenta => sgr(seq![lead, 0x35u8]),
        termcolor::Color::Cyan => sgr(seq![lead, 0x36u8]),
        termcolor::Color::White => sgr(seq![lead, 0x37u8]),
        termcolor::Color::Ansi256(n) => sgr(seq![lead, 0x38u8, 0x3bu8, 0x35u8, 0x3bu8] + decimal_u8(n)),
        termcolor::Color::Rgb(r, g, b) => sgr(
            seq![lead, 0x38u8, 0x3bu8, 0x32u8, 0x3bu8] + decimal_u8(r) + seq![0x3bu8] + decimal_u8(g)
                + seq![0x3bu8] + decimal_u8(b),
        ),
        termcolor::Color::__Nonexhaustive => seq![],
    }
}

/// The reset sequence `ESC [ 0 m`.
pub open spec fn sgr_reset() -> Seq<u8> {
    sgr(seq![0x30u8])
}

pub open spec fn opt_color_code(fg: bool, c: Option<termcolor::Color>) -> Seq<u8> {
    match c {
        Some(c) => sgr_color(fg, c),
        None => seq![],
    }
}

/// What an ANSI terminal writer emits for a style: a reset, then bold,
/// underline, foreground and background, each when asked for.
pub open spec fn sgr_style(
    fg: Option<termcolor::Color>,
    bg: Option<termcolor::Color>,
    bold: bool,
    underline: bool,
) -> Seq<u8> {
    sgr_reset() + (if bold { sgr(seq![0x31u8]) } else { seq![] }) + (if underline {
        sgr(seq![0x34u8])
    } else {
        seq![]
    }) + opt_color_code(true, fg) + opt_color_code(false, bg)
}

pub open spec fn spec_term_color(c: TextColor) -> termcolor::Color {
    match c {
        TextColor::Black => termcolor::Color::Black,
        TextColor::Blue => termcolor::Color::Blue,
        TextColor::Green => termcolor::Color::Green,
        TextColor::Red => termcolor::Color::Red,
        TextColor::Cyan => termcolor::Color::Cyan,
        TextColor::Magenta => termcolor::Color::Magenta,
        TextColor::Yellow => termcolor::Color::Yellow,
        TextColor::White => termcolor::Color::White,
        TextColor::Rgb(r, g, b) => termcolor::Color::Rgb(r, g, b),
    }
}

pub open spec fn opt_term_color(c: Option<TextColor>) -> Option<termcolor::Color> {
    match c {
        Some(c) => Some(spec_term_color(c)),
        None => None,
    }
}

/// The bytes that an ANSI terminal emits to start a run in `spec`.
pub open spec fn ansi_style_bytes(spec: ColorSpec) -> Seq<u8> {
    sgr_style(opt_term_color(spec.fg), opt_term_color(spec.bg), spec.bold, spec.underline)
}

fn term_color(c: Option<TextColor>) -> (r: Option<termcolor::Color>)
    ensures
        r == opt_term_color(c),
{
    match c {
        None => None,
        Some(TextColor::Black) => Some(termcolor::Color::Black),
        Some(TextColor::Blue) => Some(termcolor::Color::Blue),
        Some(TextColor::Green) => Some(termcolor::Color::Green),
        Some(TextColor::Red) => Some(termcolor::Color::Red),
        Some(TextColor::Cyan) => Some(termcolor::Color::Cyan),
        Some(TextColor::Magenta) => Some(termcolor::Color::Magenta),
        Some(TextColor::Yellow) => Some(termcolor::Color::Yellow),
        Some(TextColor::White) => Some(termcolor::Color::White),
        Some(TextColor::Rgb(r, g, b)) => Some(termcolor::Color::Rgb(r, g, b)),
    }
}

/// Relies on termcolor's `Ansi::set_color` (writing into a `Vec<u8>`, which never
/// fails): the reset, bold, underline, foreground and background sequences, in
/// that order, for a spec that is not intense, dimmed, italic or struck through.
#[verifier::external_body]
fn ansi_set_color(
    fg: Option<termcolor::Color>,
    bg: Option<termcolor::Color>,
    bold: bool,
    underline: bool,
) -> (r: Vec<u8>)
    requires
        !(fg matches Some(termcolor::Color::__Nonexhaustive)),
        !(bg matches Some(termcolor::Color::__Nonexhaustive)),
    ensures
        r@ == sgr_style(fg, bg, bold, underline),
{
    let mut spec = termcolor::ColorSpec::new();
    spec.set_fg(fg).set_bg(bg).set_bold(bold).set_underline(underline);
    let mut w = termcolor::Ansi::new(Vec::new());
    let _ = w.set_color(&spec);
    w.into_inner()
}

/// Relies on termcolor's `Ansi::reset` (writing into a `Vec<u8>`): `ESC [ 0 m`.
#[verifier::external_body]
fn ansi_reset() -> (r: Vec<u8>)
    ensures
        r@ == sgr_reset(),
{
    let mut w = termcolor::Ansi::new(Vec::new());
    let _ = w.reset();
    w.into_inner()
}

/// The escape sequence that starts a run in `spec` on an ANSI terminal.
pub fn ansi_style(spec: &ColorSpec) -> (r: Vec<u8>)
    ensures
        r@ == ansi_style_bytes(*spec),
{
    ansi_set_color(term_color(spec.fg), term_color(spec.bg), spec.bold, spec.underline)
}

/// The escape sequence that ends a styled run on an ANSI terminal.
pub fn ansi_reset_style() -> (r: Vec<u8>)
    ensures
        r@ == sgr_reset(),
{
    ansi_reset()
}

} // verus!
