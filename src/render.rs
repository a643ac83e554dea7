//! Rendering a departure board on a stylable writer.

use vstd::prelude::*;
use vstd::string::StrSliceExecFns;
use vstd::utf8::encode_utf8;

use crate::backend::{Connection, Stationboard};
use crate::color::{as_text_color, rgb_color, spec_parse_colored, ColorSpec, Colored, TextColor};
use crate::html::{append, lit};
use crate::local_datetime::{hour_minute_bytes, hour_minute_text, month_days};
use crate::terminal::{
    apply_ops, lemma_apply_ops_append, lemma_apply_ops_empty, lemma_apply_ops_push, Terminal, WriteOp,
};

verus! {

pub open spec fn spaces(n: int) -> Seq<u8> {
    Seq::new(n as nat, |_i: int| 0x20u8)
}

/// `s` centered in a field of `width` characters; the odd space goes right.
pub open spec fn centered(s: Seq<char>, width: int) -> Seq<u8> {
    if s.len() >= width {
        encode_utf8(s)
    } else {
        let pad = width - s.len();
        spaces(pad / 2) + encode_utf8(s) + spaces(pad - pad / 2)
    }
}

/// `s` at the left of a field of `width` characters.
pub open spec fn left_justified(s: Seq<char>, width: int) -> Seq<u8> {
    if s.len() >= width {
        encode_utf8(s)
    } else {
        encode_utf8(s) + spaces(width - s.len())
    }
}

pub open spec fn header_style() -> ColorSpec {
    ColorSpec { fg: Some(TextColor::White), bg: None, bold: true, underline: false }
}

/// Bold, in the colors that the connection's color field gives.
pub open spec fn line_style(c: Connection) -> ColorSpec {
    let col = spec_parse_colored(encode_utf8(c.color@));
    ColorSpec { fg: as_text_color(col.fg), bg: as_text_color(col.bg), bold: true, underline: false }
}

pub open spec fn header_ops(b: Stationboard) -> Seq<WriteOp> {
    seq![
        WriteOp::Style(header_style()),
        WriteOp::Text(lit("Timetable for ") + encode_utf8(b.stop.name@) + seq![0x0au8]),
        WriteOp::Reset,
    ]
}

/// One departure's line: the line code, styled, in a field of three; the
/// terminal in a field of thirty; the time as `HH:MM`; the delay, if any.
pub open spec fn connection_ops(c: Connection) -> Seq<WriteOp> {
    seq![
        WriteOp::Style(line_style(c)),
        WriteOp::Text(centered(c.line@, 3)),
        WriteOp::Reset,
        WriteOp::Text(seq![0x20u8] + left_justified(c.terminal.name@, 30)),
        WriteOp::Text(seq![0x20u8] + hour_minute_text(c.time)),
    ] + (match c.dep_delay {
        Some(d) => seq![WriteOp::Text(seq![0x20u8] + encode_utf8(d@))],
        None => seq![],
    }) + seq![WriteOp::Reset, WriteOp::Text(seq![0x0au8])]
}

pub open spec fn connections_ops(cs: Seq<Connection>) -> Seq<WriteOp>
    decreases cs.len(),
{
    if cs.len() == 0 {
        seq![]
    } else {
        connections_ops(cs.drop_last()) + connection_ops(cs.last())
    }
}

/// The calls that render a board: its header, then each departure in order.
pub open spec fn board_ops(b: Stationboard) -> Seq<WriteOp> {
    header_ops(b) + connections_ops(b.connections@)
}

fn push_spaces(out: &mut Vec<u8>, n: usize)
    ensures
        final(out)@ == old(out)@ + spaces(n as int),
{
    let mut i: usize = 0;
    while i < n
        invariant
            i <= n,
            out@ == old(out)@ + spaces(i as int),
        decreases n - i,
    {
        out.push(0x20);
        i = i + 1;
        assert(spaces(i as int) == spaces(i - 1) + seq![0x20u8]);
    }
}

/// `s` centered in a field of `width` characters.
pub fn centered_bytes(s: &str, width: usize) -> (r: Vec<u8>)
    ensures
        r@ == centered(s@, width as int),
{
    let n = s.unicode_len();
    let mut out: Vec<u8> = Vec::new();
    if n >= width {
        append(&mut out, s.as_bytes());
    } else {
        let pad = width - n;
        push_spaces(&mut out, pad / 2);
        append(&mut out, s.as_bytes());
        push_spaces(&mut out, pad - pad / 2);
    }
    out
}

/// `s` at the left of a field of `width` characters.
pub fn left_justified_bytes(s: &str, width: usize) -> (r: Vec<u8>)
    ensures
        r@ == left_justified(s@, width as int),
{
    let n = s.unicode_len();
    let mut out: Vec<u8> = Vec::new();
    append(&mut out, s.as_bytes());
    if n < width {
        push_spaces(&mut out, width - n);
    }
    out
}

impl Stationboard {
    pub open spec fn wf(&self) -> bool {
        forall|i: int| 0 <= i < self.connections@.len() ==> (#[trigger] self.connections@[i]).time.wf()
    }

    /// Whether every departure's time is a valid local time, as decoding makes it.
    pub fn times_valid(&self) -> (r: bool)
        ensures
            r == self.wf(),
    {
        let mut i: usize = 0;
        while i < self.connections.len()
            invariant
                i <= self.connections@.len(),
                forall|k: int| 0 <= k < i ==> (#[trigger] self.connections@[k]).time.wf(),
            decreases self.connections@.len() - i,
        {
            let t = &self.connections[i].time;
            if !(t.year <= 9999 && 1 <= t.month && t.month <= 12 && 1 <= t.day && t.day <= month_days(t.year, t.month)
                && t.hour < 24 && t.minute < 60 && t.second < 60 && -86400 < t.utc_offset && t.utc_offset < 86400) {
                return false;
            }
            i = i + 1;
        }
        true
    }

    /// Renders the board on `w`: a bold white header naming the stop, then one
    /// line per departure, in order.
    pub fn ansi_write(&self, w: &mut Terminal)
        requires
            old(w).wf(),
            self.wf(),
        ensures
            final(w).wf(),
            final(w)@ == apply_ops(old(w)@, board_ops(*self)),
    {
        let ghost start = w@;
        let header = ColorSpec { fg: Some(TextColor::White), bg: None, bold: true, underline: false };
        w.set_color(&header);
        let mut text: Vec<u8> = Vec::new();
        append(&mut text, "Timetable for ".as_bytes());
        append(&mut text, self.stop.name.as_str().as_bytes());
        text.push(0x0a);
        assert(text@ =~= lit("Timetable for ") + encode_utf8(self.stop.name@) + seq![0x0au8]);
        w.write(text.as_slice());
        w.reset();
        proof {
            lemma_apply_ops_empty(start);
            lemma_apply_ops_push(start, seq![], WriteOp::Style(header));
            lemma_apply_ops_push(start, seq![WriteOp::Style(header)], WriteOp::Text(text@));
            lemma_apply_ops_push(start, seq![WriteOp::Style(header), WriteOp::Text(text@)], WriteOp::Reset);
            assert(seq![WriteOp::Style(header), WriteOp::Text(text@), WriteOp::Reset] =~= header_ops(*self));
            assert(seq![WriteOp::Style(header)] =~= Seq::<WriteOp>::empty().push(WriteOp::Style(header)));
            assert(seq![WriteOp::Style(header), WriteOp::Text(text@)] =~= seq![WriteOp::Style(header)].push(WriteOp::Text(text@)));
            assert(seq![WriteOp::Style(header), WriteOp::Text(text@), WriteOp::Reset] =~= seq![WriteOp::Style(header), WriteOp::Text(text@)].push(WriteOp::Reset));
            assert(connections_ops(self.connections@.take(0)) == Seq::<WriteOp>::empty());
            assert(header_ops(*self) + Seq::<WriteOp>::empty() == header_ops(*self));
        }
        let mut i: usize = 0;
        while i < self.connections.len()
            invariant
                self.wf(),
                w.wf(),
                i <= self.connections@.len(),
                w@ == apply_ops(start, header_ops(*self) + connections_ops(self.connections@.take(i as int))),
            decreases self.connections@.len() - i,
        {
            let c = &self.connections[i];
            write_connection(c, w);
            proof {
                let cs = self.connections@.take(i as int + 1);
                assert(cs.drop_last() == self.connections@.take(i as int));
                assert(cs.last() == *c);
                lemma_apply_ops_append(start, header_ops(*self), connections_ops(cs.drop_last()));
                lemma_apply_ops_append(start, header_ops(*self), connections_ops(cs));
                lemma_apply_ops_append(
                    apply_ops(start, header_ops(*self)),
                    connections_ops(cs.drop_last()),
                    connection_ops(*c),
                );
            }
            i = i + 1;
        }
        assert(self.connections@.take(i as int) == self.connections@);
    }
}

fn write_connection(c: &Connection, w: &mut Terminal)
    requires
        old(w).wf(),
        c.time.wf(),
    ensures
        final(w).wf(),
        final(w)@ == apply_ops(old(w)@, connection_ops(*c)),
{
    let ghost s0 = w@;
    let ghost mut ops: Seq<WriteOp> = seq![];
    proof {
        lemma_apply_ops_empty(s0);
    }
    let col = Colored::parse(c.color.as_str());
    let style = ColorSpec { fg: rgb_color(col.fg), bg: rgb_color(col.bg), bold: true, underline: false };
    w.set_color(&style);
    proof {
        lemma_apply_ops_push(s0, ops, WriteOp::Style(style));
        ops = ops.push(WriteOp::Style(style));
    }
    let code = centered_bytes(c.line.as_str(), 3);
    w.write(code.as_slice());
    proof {
        lemma_apply_ops_push(s0, ops, WriteOp::Text(code@));
        ops = ops.push(WriteOp::Text(code@));
    }
    w.reset();
    proof {
        lemma_apply_ops_push(s0, ops, WriteOp::Reset);
        ops = ops.push(WriteOp::Reset);
    }
    let mut term: Vec<u8> = Vec::new();
    term.push(0x20);
    let name = left_justified_bytes(c.terminal.name.as_str(), 30);
    append(&mut term, name.as_slice());
    assert(term@ =~= seq![0x20u8] + left_justified(c.terminal.name@, 30));
    w.write(term.as_slice());
    proof {
        lemma_apply_ops_push(s0, ops, WriteOp::Text(term@));
        ops = ops.push(WriteOp::Text(term@));
    }
    let mut time: Vec<u8> = Vec::new();
    time.push(0x20);
    let hm = hour_minute_bytes(&c.time);
    append(&mut time, hm.as_slice());
    assert(time@ =~= seq![0x20u8] + hour_minute_text(c.time));
    w.write(time.as_slice());
    proof {
        lemma_apply_ops_push(s0, ops, WriteOp::Text(time@));
        ops = ops.push(WriteOp::Text(time@));
    }
    match &c.dep_delay {
        Some(d) => {
            let mut text: Vec<u8> = Vec::new();
            text.push(0x20);
            append(&mut text, d.as_str().as_bytes());
            assert(text@ =~= seq![0x20u8] + encode_utf8(d@));
            w.write(text.as_slice());
            proof {
                lemma_apply_ops_push(s0, ops, WriteOp::Text(text@));
                ops = ops.push(WriteOp::Text(text@));
            }
        },
        None => {},
    }
    w.reset();
    proof {
        lemma_apply_ops_push(s0, ops, WriteOp::Reset);
        ops = ops.push(WriteOp::Reset);
    }
    let newline = [0x0au8];
    assert(newline@ =~= seq![0x0au8]);
    w.write(&newline);
    proof {
        lemma_apply_ops_push(s0, ops, WriteOp::Text(seq![0x0au8]));
        ops = ops.push(WriteOp::Text(seq![0x0au8]));
        assert(ops =~= connection_ops(*c));
    }
}

} // verus!
