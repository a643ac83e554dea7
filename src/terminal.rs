//! One stylable writer over three encodings, and what each call writes.

use vstd::prelude::*;
use vstd::utf8::encode_utf8;

use crate::ansi::{ansi_reset_style, ansi_style, ansi_style_bytes, sgr_reset};
use crate::color::ColorSpec;
use crate::html::{append, doc_body, doc_head, html_escape, span_close_tag, span_open_tag, Html};

verus! {

/// The three output encodings.
#[derive(Clone, Copy, Debug, PartialEq, Eq, Structural)]
pub enum Mode {
    /// Inline-styled HTML.
    Html,
    /// Text with ANSI escape sequences.
    Ansi,
    /// Text without styling.
    Plain,
}

/// What a `Terminal` has written so far, in which encoding, and whether an HTML
/// span is open.
pub struct TermState {
    pub mode: Mode,
    pub out: Seq<u8>,
    pub span_open: bool,
}

/// One call on a writer: text, the start of a styled run, or its end.
pub enum WriteOp {
    Text(Seq<u8>),
    Style(ColorSpec),
    Reset,
}

/// The effect of one call on a writer's state.
#[verifier::opaque]
pub open spec fn apply_op(s: TermState, op: WriteOp) -> TermState {
    match s.mode {
        Mode::Plain => match op {
            WriteOp::Text(t) => TermState { out: s.out + t, ..s },
            _ => s,
        },
        Mode::Ansi => match op {
            WriteOp::Text(t) => TermState { out: s.out + t, ..s },
            WriteOp::Style(spec) => TermState { out: s.out + ansi_style_bytes(spec), ..s },
            WriteOp::Reset => TermState { out: s.out + sgr_reset(), ..s },
        },
        Mode::Html => match op {
            WriteOp::Text(t) => TermState { out: s.out + html_escape(t), ..s },
            WriteOp::Style(spec) => TermState {
                out: s.out + (if s.span_open {
                    span_close_tag()
                } else {
                    seq![]
                }) + span_open_tag(spec),
                span_open: true,
                ..s
            },
            WriteOp::Reset => TermState {
                out: s.out + (if s.span_open {
                    span_close_tag()
                } else {
                    seq![]
                }),
                span_open: false,
                ..s
            },
        },
    }
}

/// The effect of a sequence of calls, in order.
#[verifier::opaque]
pub open spec fn apply_ops(s: TermState, ops: Seq<WriteOp>) -> TermState
    decreases ops.len(),
{
    if ops.len() == 0 {
        s
    } else {
        apply_op(apply_ops(s, ops.drop_last()), ops.last())
    }
}

pub proof fn lemma_apply_ops_empty(s: TermState)
    ensures
        apply_ops(s, seq![]) == s,
{
    reveal(apply_ops);
}

pub proof fn lemma_apply_ops_push(s: TermState, ops: Seq<WriteOp>, op: WriteOp)
    ensures
        apply_ops(s, ops.push(op)) == apply_op(apply_ops(s, ops), op),
{
    reveal(apply_ops);
    assert(ops.push(op).drop_last() == ops);
}

pub proof fn lemma_apply_ops_append(s: TermState, a: Seq<WriteOp>, b: Seq<WriteOp>)
    ensures
        apply_ops(s, a + b) == apply_ops(apply_ops(s, a), b),
    decreases b.len(),
{
    reveal(apply_ops);
    if b.len() == 0 {
        assert(a + b == a);
    } else {
        assert((a + b).drop_last() == a + b.drop_last());
        lemma_apply_ops_append(s, a, b.drop_last());
    }
}

/// Styling calls on a plain-text writer write nothing, whatever the style.
pub proof fn lemma_plain_ignores_styles(s: TermState, spec: ColorSpec)
    requires
        s.mode == Mode::Plain,
    ensures
        apply_op(s, WriteOp::Style(spec)) == s,
        apply_op(s, WriteOp::Reset) == s,
{
    reveal(apply_op);
}

/// Two styled runs started one after the other on an HTML writer: the first
/// span is closed before the second opens, and exactly one span is open after.
pub proof fn lemma_html_styles_never_nest(s: TermState, a: ColorSpec, b: ColorSpec)
    requires
        s.mode == Mode::Html,
    ensures
        apply_ops(s, seq![WriteOp::Style(a), WriteOp::Style(b)]).out == s.out + (if s.span_open {
            span_close_tag()
        } else {
            seq![]
        }) + span_open_tag(a) + span_close_tag() + span_open_tag(b),
        apply_ops(s, seq![WriteOp::Style(a), WriteOp::Style(b)]).span_open,
{
    reveal(apply_op);
    lemma_apply_ops_empty(s);
    lemma_apply_ops_push(s, seq![], WriteOp::Style(a));
    assert(seq![WriteOp::Style(a)] == Seq::<WriteOp>::empty().push(WriteOp::Style(a)));
    lemma_apply_ops_push(s, seq![WriteOp::Style(a)], WriteOp::Style(b));
    assert(seq![WriteOp::Style(a), WriteOp::Style(b)] == seq![WriteOp::Style(a)].push(WriteOp::Style(b)));
}

/// Ending a run on an HTML writer twice in a row writes no more than ending it once.
pub proof fn lemma_html_reset_idempotent(s: TermState)
    requires
        s.mode == Mode::Html,
    ensures
        apply_op(apply_op(s, WriteOp::Reset), WriteOp::Reset) == apply_op(s, WriteOp::Reset),
{
    reveal(apply_op);
    assert(apply_op(s, WriteOp::Reset).out + Seq::<u8>::empty() == apply_op(s, WriteOp::Reset).out);
}

enum TerminalImpl {
    Html(Html),
    Ansi(Vec<u8>),
    Plain(Vec<u8>),
}

/// A stylable text sink over one of three encodings, chosen when it is made.
pub struct Terminal {
    w: TerminalImpl,
}

impl View for Terminal {
    type V = TermState;

    closed spec fn view(&self) -> TermState {
        match &self.w {
            TerminalImpl::Html(h) => TermState { mode: Mode::Html, out: h@.out, span_open: h@.span_open },
            TerminalImpl::Ansi(v) => TermState { mode: Mode::Ansi, out: v@, span_open: false },
            TerminalImpl::Plain(v) => TermState { mode: Mode::Plain, out: v@, span_open: false },
        }
    }
}

pub open spec fn html_content_type() -> Seq<char> {
    "text/html; charset=UTF-8"@
}

pub open spec fn text_content_type() -> Seq<char> {
    "text/plain; charset=UTF-8"@
}

impl Terminal {
    pub closed spec fn wf(&self) -> bool {
        match &self.w {
            TerminalImpl::Html(h) => h.wf(),
            _ => true,
        }
    }

    /// A writer of text with ANSI escape sequences.
    pub fn ansi() -> (r: Terminal)
        ensures
            r.wf(),
            r@ == (TermState { mode: Mode::Ansi, out: seq![], span_open: false }),
    {
        Terminal { w: TerminalImpl::Ansi(Vec::new()) }
    }

    /// A writer of text that drops all styling.
    pub fn plain() -> (r: Terminal)
        ensures
            r.wf(),
            r@ == (TermState { mode: Mode::Plain, out: seq![], span_open: false }),
    {
        Terminal { w: TerminalImpl::Plain(Vec::new()) }
    }

    /// A writer of an HTML document titled `title`.
    pub fn html(title: &str) -> (r: Terminal)
        ensures
            r.wf(),
            r@ == (TermState {
                mode: Mode::Html,
                out: doc_head() + html_escape(encode_utf8(title@)) + doc_body(),
                span_open: false,
            }),
    {
        let h = Html::new(Vec::new(), title);
        assert(Seq::<u8>::empty() + doc_head() == doc_head());
        Terminal { w: TerminalImpl::Html(h) }
    }

    /// The MIME type of what this writer produces.
    pub fn content_type(&self) -> (r: &'static str)
        ensures
            r@ == (if self@.mode == Mode::Html {
                html_content_type()
            } else {
                text_content_type()
            }),
    {
        match &self.w {
            TerminalImpl::Html(_) => "text/html; charset=UTF-8",
            TerminalImpl::Ansi(_) => "text/plain; charset=UTF-8",
            TerminalImpl::Plain(_) => "text/plain; charset=UTF-8",
        }
    }

    /// Whether this writer shows styles.
    pub fn supports_color(&self) -> (r: bool)
        ensures
            r == (self@.mode != Mode::Plain),
    {
        match &self.w {
            TerminalImpl::Html(h) => h.supports_color(),
            TerminalImpl::Ansi(_) => true,
            TerminalImpl::Plain(_) => false,
        }
    }

    /// Consumes the writer and returns what it has written.
    pub fn into_bytes(self) -> (r: Vec<u8>)
        ensures
            r@ == self@.out,
    {
        match self.w {
            TerminalImpl::Html(h) => h.into_inner(),
            TerminalImpl::Ansi(v) => v,
            TerminalImpl::Plain(v) => v,
        }
    }

    /// Writes text.
    pub fn write(&mut self, buf: &[u8])
        requires
            old(self).wf(),
        ensures
            final(self).wf(),
            final(self)@ == apply_op(old(self)@, WriteOp::Text(buf@)),
    {
        reveal(apply_op);
        match &mut self.w {
            TerminalImpl::Html(h) => h.write(buf),
            TerminalImpl::Ansi(v) => append(v, buf),
            TerminalImpl::Plain(v) => append(v, buf),
        }
    }

    /// Nothing is held back: a writer keeps all it has written in memory.
    pub fn flush(&mut self)
        ensures
            *final(self) == *old(self),
    {
    }

    /// Starts a run styled by `spec`.
    pub fn set_color(&mut self, spec: &ColorSpec)
        requires
            old(self).wf(),
        ensures
            final(self).wf(),
            final(self)@ == apply_op(old(self)@, WriteOp::Style(*spec)),
    {
        reveal(apply_op);
        match &mut self.w {
            TerminalImpl::Html(h) => h.set_color(spec),
            TerminalImpl::Ansi(v) => {
                let code = ansi_style(spec);
                append(v, code.as_slice());
            },
            TerminalImpl::Plain(_) => {},
        }
    }

    /// Ends the styled run.
    pub fn reset(&mut self)
        requires
            old(self).wf(),
        ensures
            final(self).wf(),
            final(self)@ == apply_op(old(self)@, WriteOp::Reset),
    {
        reveal(apply_op);
        match &mut self.w {
            TerminalImpl::Html(h) => h.reset(),
            TerminalImpl::Ansi(v) => {
                let code = ansi_reset_style();
                append(v, code.as_slice());
            },
            TerminalImpl::Plain(_) => {},
        }
    }
}

} // verus!
