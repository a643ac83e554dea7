//! A writer of inline-styled HTML whose spans never nest.

use vstd::prelude::*;
use vstd::utf8::encode_utf8;

use crate::color::{ColorSpec, TextColor};

verus! {

/// The UTF-8 bytes of a literal.
pub open spec fn lit(s: &str) -> Seq<u8> {
    encode_utf8(s@)
}

/// What stands in the output for byte `b` of a text.
pub open spec fn escape_byte(b: u8) -> Seq<u8> {
    if b == 0x22 {
        seq![0x26u8, 0x71, 0x75, 0x6f, 0x74, 0x3b]  // &quot;
    } else if b == 0x26 {
        seq![0x26u8, 0x61, 0x6d, 0x70, 0x3b]  // &amp;
    } else if b == 0x27 {
        seq![0x26u8, 0x23, 0x78, 0x32, 0x37, 0x3b]  // &#x27;
    } else if b == 0x3c {
        seq![0x26u8, 0x6c, 0x74, 0x3b]  // &lt;
    } else if b == 0x3e {
        seq![0x26u8, 0x67, 0x74, 0x3b]  // &gt;
    } else {
        seq![b]
    }
}

/// `s` with `"`, `&`, `'`, `<` and `>` replaced by character references.
pub open spec fn html_escape(s: Seq<u8>) -> Seq<u8>
    decreases s.len(),
{
    if s.len() == 0 {
        seq![]
    } else {
        html_escape(s.drop_last()) + escape_byte(s.last())
    }
}

pub open spec fn hex_digit_byte(d: u8) -> u8 {
    if d < 10 {
        (0x30 + d) as u8
    } else {
        (0x61 + d - 10) as u8
    }
}

/// Two lower-case hex digits.
pub open spec fn hex2(n: u8) -> Seq<u8> {
    seq![hex_digit_byte(n / 16), hex_digit_byte(n % 16)]
}

/// The CSS form of a color: `#rgb` for a named one, `#rrggbb` for a triple.
pub open spec fn css_color(c: TextColor) -> Seq<u8> {
    match c {
        TextColor::Black => lit("#000"),
        TextColor::Blue => lit("#00f"),
        TextColor::Green => lit("#0f0"),
        TextColor::Red => lit("#f00"),
        TextColor::Cyan => lit("#0ff"),
        TextColor::Magenta => lit("#f0f"),
        TextColor::Yellow => lit("#ff0"),
        TextColor::White => lit("#fff"),
        TextColor::Rgb(r, g, b) => seq![0x23u8] + hex2(r) + hex2(g) + hex2(b),
    }
}

pub open spec fn css_decl(name: Seq<u8>, c: Option<TextColor>) -> Seq<u8> {
    match c {
        Some(c) => name + css_color(c) + lit(";"),
        None => seq![],
    }
}

/// The opening tag of a span styled by `spec`.
pub open spec fn span_open_tag(spec: ColorSpec) -> Seq<u8> {
    lit("<span style=\"") + css_decl(lit("color:"), spec.fg) + css_decl(
        lit("background-color:"),
        spec.bg,
    ) + (if spec.underline {
        lit("text-decoration: underline;")
    } else {
        seq![]
    }) + (if spec.bold {
        lit("font-weight: bold;")
    } else {
        seq![]
    }) + lit("\">")
}

pub open spec fn span_close_tag() -> Seq<u8> {
    lit("</span>")
}

pub open spec fn doc_head() -> Seq<u8> {
    lit("<!doctype html><html lang=en><head><meta charset=utf-8><title>")
}

pub open spec fn doc_body() -> Seq<u8> {
    lit(
        "</title></head><body style=\"background-color: #000; color: #fff; font-family: monospace; white-space: pre;\">",
    )
}

/// Escaped text holds no `<`, so text can never open or close a tag.
pub proof fn lemma_escaped_text_has_no_tag(s: Seq<u8>)
    ensures
        forall|i: int| 0 <= i < html_escape(s).len() ==> #[trigger] html_escape(s)[i] != 0x3c,
    decreases s.len(),
{
    if s.len() > 0 {
        lemma_escaped_text_has_no_tag(s.drop_last());
        let e = escape_byte(s.last());
        assert(forall|i: int| 0 <= i < e.len() ==> #[trigger] e[i] != 0x3c);
        let h = html_escape(s.drop_last());
        assert forall|i: int| 0 <= i < html_escape(s).len() implies #[trigger] html_escape(s)[i] != 0x3c by {
            if i < h.len() {
                assert(html_escape(s)[i] == h[i]);
            } else {
                assert(html_escape(s)[i] == e[i - h.len()]);
            }
        }
    }
}

/// What an `Html` writer has written, whether a span is open, and how many
/// opening and closing span tags it has written.
pub struct HtmlState {
    pub out: Seq<u8>,
    pub span_open: bool,
    pub opened: nat,
    pub closed: nat,
}

/// A writer of inline-styled HTML. Styled runs are `<span>`s that never nest:
/// starting a run closes the one that is open.
pub struct Html {
    writer: Vec<u8>,
    span_opened: bool,
    opened: Ghost<nat>,
    closed: Ghost<nat>,
}

pub fn append(out: &mut Vec<u8>, s: &[u8])
    ensures
        final(out)@ == old(out)@ + s@,
{
    let mut i: usize = 0;
    while i < s.len()
        invariant
            i <= s@.len(),
            out@ == old(out)@ + s@.subrange(0, i as int),
        decreases s@.len() - i,
    {
        out.push(s[i]);
        i = i + 1;
        assert(s@.subrange(0, i as int) == s@.subrange(0, i - 1) + seq![s@[i - 1]]);
    }
    assert(s@.subrange(0, i as int) == s@);
}

/// Appends `s` to `out` with HTML's special characters escaped.
pub fn push_escaped(out: &mut Vec<u8>, s: &[u8])
    ensures
        final(out)@ == old(out)@ + html_escape(s@),
{
    let mut i: usize = 0;
    while i < s.len()
        invariant
            i <= s@.len(),
            out@ == old(out)@ + html_escape(s@.subrange(0, i as int)),
        decreases s@.len() - i,
    {
        let b = s[i];
        if b == 0x22 {
            append(out, &[0x26u8, 0x71, 0x75, 0x6f, 0x74, 0x3b]);
        } else if b == 0x26 {
            append(out, &[0x26u8, 0x61, 0x6d, 0x70, 0x3b]);
        } else if b == 0x27 {
            append(out, &[0x26u8, 0x23, 0x78, 0x32, 0x37, 0x3b]);
        } else if b == 0x3c {
            append(out, &[0x26u8, 0x6c, 0x74, 0x3b]);
        } else if b == 0x3e {
            append(out, &[0x26u8, 0x67, 0x74, 0x3b]);
        } else {
            out.push(b);
        }
        let ghost prefix = s@.subrange(0, i as int + 1);
        assert(prefix.drop_last() == s@.subrange(0, i as int));
        assert(prefix.last() == b);
        i = i + 1;
    }
    assert(s@.subrange(0, i as int) == s@);
}

fn hex_digit_char(d: u8) -> (r: u8)
    requires
        d < 16,
    ensures
        r == hex_digit_byte(d),
{
    if d < 10 {
        0x30 + d
    } else {
        0x61 + d - 10
    }
}

fn write_hex2(out: &mut Vec<u8>, n: u8)
    ensures
        final(out)@ == old(out)@ + hex2(n),
{
    out.push(hex_digit_char(n / 16));
    out.push(hex_digit_char(n % 16));
}

/// Appends the CSS form of `c`.
pub fn write_css_color(out: &mut Vec<u8>, c: TextColor)
    ensures
        final(out)@ == old(out)@ + css_color(c),
{
    match c {
        TextColor::Black => append(out, "#000".as_bytes()),
        TextColor::Blue => append(out, "#00f".as_bytes()),
        TextColor::Green => append(out, "#0f0".as_bytes()),
        TextColor::Red => append(out, "#f00".as_bytes()),
        TextColor::Cyan => append(out, "#0ff".as_bytes()),
        TextColor::Magenta => append(out, "#f0f".as_bytes()),
        TextColor::Yellow => append(out, "#ff0".as_bytes()),
        TextColor::White => append(out, "#fff".as_bytes()),
        TextColor::Rgb(r, g, b) => {
            out.push(0x23);
            write_hex2(out, r);
            write_hex2(out, g);
            write_hex2(out, b);
        },
    }
}

fn write_css_decl(out: &mut Vec<u8>, name: &str, c: Option<TextColor>)
    ensures
        final(out)@ == old(out)@ + css_decl(lit(name), c),
{
    if let Some(c) = c {
        append(out, name.as_bytes());
        write_css_color(out, c);
        append(out, ";".as_bytes());
    }
}

impl View for Html {
    type V = HtmlState;

    closed spec fn view(&self) -> HtmlState {
        HtmlState {
            out: self.writer@,
            span_open: self.span_opened,
            opened: self.opened@,
            closed: self.closed@,
        }
    }
}

impl Html {
    /// Every span tag that was opened has been closed, but the one that is open
    /// now if there is one: spans never nest.
    pub open spec fn wf(&self) -> bool {
        self@.opened == self@.closed + (if self@.span_open { 1nat } else { 0nat })
    }

    /// Starts an HTML document on `writer`, with `title` escaped in its head.
    pub fn new(writer: Vec<u8>, title: &str) -> (r: Html)
        ensures
            r.wf(),
            r@.out == writer@ + doc_head() + html_escape(encode_utf8(title@)) + doc_body(),
            !r@.span_open,
            r@.opened == 0,
    {
        let mut html = Html { writer, span_opened: false, opened: Ghost(0), closed: Ghost(0) };
        append(&mut html.writer, "<!doctype html><html lang=en><head><meta charset=utf-8><title>".as_bytes());
        push_escaped(&mut html.writer, title.as_bytes());
        append(
            &mut html.writer,
            "</title></head><body style=\"background-color: #000; color: #fff; font-family: monospace; white-space: pre;\">".as_bytes(),
        );
        html
    }

    /// Consumes the writer and returns what it has written.
    pub fn into_inner(self) -> (r: Vec<u8>)
        ensures
            r@ == self@.out,
    {
        self.writer
    }

    /// What the writer has written so far.
    pub fn get_ref(&self) -> (r: &Vec<u8>)
        ensures
            r@ == self@.out,
    {
        &self.writer
    }

    /// The written bytes, to change in place; the span state stays as it is.
    pub fn get_mut(&mut self) -> (r: &mut Vec<u8>)
        ensures
            r@ == old(self)@.out,
            final(self)@ == (HtmlState { out: final(r)@, ..old(self)@ }),
    {
        &mut self.writer
    }

    pub fn supports_color(&self) -> (r: bool)
        ensures
            r,
    {
        true
    }

    /// Writes text with `"`, `&`, `'`, `<` and `>` escaped.
    pub fn write_html_encoded(&mut self, s: &[u8])
        requires
            old(self).wf(),
        ensures
            final(self).wf(),
            final(self)@ == (HtmlState { out: old(self)@.out + html_escape(s@), ..old(self)@ }),
    {
        push_escaped(&mut self.writer, s);
    }

    /// Writes text; all text is escaped, inside a span or not.
    pub fn write(&mut self, buf: &[u8])
        requires
            old(self).wf(),
        ensures
            final(self).wf(),
            final(self)@ == (HtmlState { out: old(self)@.out + html_escape(buf@), ..old(self)@ }),
    {
        self.write_html_encoded(buf);
    }

    /// Starts a styled run: closes the open span if there is one, then opens a
    /// span styled by `spec`.
    pub fn set_color(&mut self, spec: &ColorSpec)
        requires
            old(self).wf(),
        ensures
            final(self).wf(),
            final(self)@.out == old(self)@.out + (if old(self)@.span_open {
                span_close_tag()
            } else {
                seq![]
            }) + span_open_tag(*spec),
            final(self)@.span_open,
            final(self)@.opened == old(self)@.opened + 1,
    {
        if self.span_opened {
            append(&mut self.writer, "</span>".as_bytes());
            self.closed = Ghost(self.closed@ + 1);
        }
        append(&mut self.writer, "<span style=\"".as_bytes());
        write_css_decl(&mut self.writer, "color:", spec.fg);
        write_css_decl(&mut self.writer, "background-color:", spec.bg);
        if spec.underline {
            append(&mut self.writer, "text-decoration: underline;".as_bytes());
        }
        if spec.bold {
            append(&mut self.writer, "font-weight: bold;".as_bytes());
        }
        append(&mut self.writer, "\">".as_bytes());
        self.span_opened = true;
        self.opened = Ghost(self.opened@ + 1);
    }

    /// Ends the styled run: closes the open span; does nothing when none is open.
    pub fn reset(&mut self)
        requires
            old(self).wf(),
        ensures
            final(self).wf(),
            final(self)@.out == old(self)@.out + (if old(self)@.span_open {
                span_close_tag()
            } else {
                seq![]
            }),
            !final(self)@.span_open,
            final(self)@.opened == old(self)@.opened,
    {
        if self.span_opened {
            append(&mut self.writer, "</span>".as_bytes());
            self.closed = Ghost(self.closed@ + 1);
        }
        self.span_opened = false;
    }
}

} // verus!
