//! Why a response could not be decoded, and the text of each error.

use vstd::prelude::*;
use vstd::string::StringExecFns;
use vstd::utf8::encode_utf8;

use crate::html::lit;
use crate::local_datetime::ascii_string;

verus! {

/// A coordinate as the upstream service sent it: a number or a string.
#[derive(Clone, Debug, PartialEq, Eq)]
pub enum CoordInput {
    Unsigned(u64),
    Signed(i64),
    Text(String),
}

/// Why a response could not be decoded.
#[derive(Clone, Debug, PartialEq, Eq)]
pub enum DecodeError {
    /// The response does not have the expected shape.
    Malformed(String),
    /// The upstream service answered with a message instead of data.
    Upstream(String),
    /// A coordinate that is not an integer in `[0, 1_000_000)`.
    InvalidCoord(CoordInput),
    /// A time that is not `YYYY-MM-DD HH:MM:SS`, or no local time.
    InvalidTime(String),
}

/// `n` in decimal, without leading zeros.
pub open spec fn decimal(n: nat) -> Seq<u8>
    decreases n,
{
    if n < 10 {
        seq![(0x30 + n) as u8]
    } else {
        decimal(n / 10) + seq![(0x30 + n % 10) as u8]
    }
}

/// `n` in decimal, with a `-` when negative.
pub open spec fn signed_decimal(n: int) -> Seq<u8> {
    if n < 0 {
        seq![0x2du8] + decimal((-n) as nat)
    } else {
        decimal(n as nat)
    }
}

/// The text of an error, as UTF-8: the message itself for a malformed or
/// upstream-reported response, else what was wrong and the offending value.
pub open spec fn message_bytes(e: DecodeError) -> Seq<u8> {
    match e {
        DecodeError::Malformed(m) => encode_utf8(m@),
        DecodeError::Upstream(m) => encode_utf8(m@),
        DecodeError::InvalidCoord(CoordInput::Unsigned(n)) => lit("invalid coordinate: ") + decimal(n as nat),
        DecodeError::InvalidCoord(CoordInput::Signed(n)) => lit("invalid coordinate: ") + signed_decimal(n as int),
        DecodeError::InvalidCoord(CoordInput::Text(t)) => lit("invalid coordinate: \"") + encode_utf8(t@) + lit("\""),
        DecodeError::InvalidTime(t) => lit("invalid local time: \"") + encode_utf8(t@) + lit("\""),
    }
}

proof fn lemma_encode_utf8_concat(a: Seq<char>, b: Seq<char>)
    ensures
        encode_utf8(a + b) == encode_utf8(a) + encode_utf8(b),
    decreases a.len(),
{
    if a.len() == 0 {
        assert(a + b == b);
    } else {
        assert((a + b).drop_first() == a.drop_first() + b);
        assert((a + b)[0] == a[0]);
        lemma_encode_utf8_concat(a.drop_first(), b);
    }
}

fn push_decimal(out: &mut Vec<u8>, n: u64)
    ensures
        final(out)@ == old(out)@ + decimal(n as nat),
    decreases n,
{
    if n >= 10 {
        push_decimal(out, n / 10);
    }
    out.push(0x30 + (n % 10) as u8);
}

fn signed_decimal_bytes(n: i64) -> (r: Vec<u8>)
    ensures
        r@ == signed_decimal(n as int),
{
    let mut out: Vec<u8> = Vec::new();
    if n < 0 {
        out.push(0x2d);
        let m: u64 = (-(n + 1)) as u64 + 1;
        push_decimal(&mut out, m);
    } else {
        push_decimal(&mut out, n as u64);
    }
    out
}

proof fn lemma_decimal_ascii(n: nat)
    ensures
        forall|i: int| 0 <= i < decimal(n).len() ==> #[trigger] decimal(n)[i] < 0x80,
    decreases n,
{
    if n >= 10 {
        lemma_decimal_ascii(n / 10);
        let d = decimal(n / 10);
        assert forall|i: int| 0 <= i < decimal(n).len() implies #[trigger] decimal(n)[i] < 0x80 by {
            if i < d.len() {
                assert(decimal(n)[i] == d[i]);
            }
        }
    }
}

/// `prefix`, `value` and `suffix`, one after the other.
fn joined(prefix: &str, value: &str, suffix: &str) -> (r: String)
    ensures
        encode_utf8(r@) == encode_utf8(prefix@) + encode_utf8(value@) + encode_utf8(suffix@),
{
    let mut r = String::from_str(prefix);
    r.append(value);
    r.append(suffix);
    proof {
        lemma_encode_utf8_concat(prefix@, value@);
        lemma_encode_utf8_concat(prefix@ + value@, suffix@);
    }
    r
}

impl DecodeError {
    /// The human-readable text of the error.
    pub fn message(&self) -> (r: String)
        ensures
            encode_utf8(r@) == message_bytes(*self),
    {
        proof {
            reveal_strlit("");
            assert(encode_utf8(""@) == Seq::<u8>::empty());
        }
        match self {
            DecodeError::Malformed(m) => m.clone(),
            DecodeError::Upstream(m) => m.clone(),
            DecodeError::InvalidCoord(CoordInput::Text(t)) => joined("invalid coordinate: \"", t.as_str(), "\""),
            DecodeError::InvalidTime(t) => joined("invalid local time: \"", t.as_str(), "\""),
            DecodeError::InvalidCoord(CoordInput::Unsigned(n)) => {
                let mut digits: Vec<u8> = Vec::new();
                push_decimal(&mut digits, *n);
                proof {
                    lemma_decimal_ascii(*n as nat);
                    assert(digits@ == Seq::<u8>::empty() + decimal(*n as nat));
                }
                let d = ascii_string(digits.as_slice());
                joined("invalid coordinate: ", d.as_str(), "")
            },
            DecodeError::InvalidCoord(CoordInput::Signed(n)) => {
                let digits = signed_decimal_bytes(*n);
                proof {
                    let m = if *n < 0 { (-(*n as int)) as nat } else { *n as nat };
                    lemma_decimal_ascii(m);
                    assert forall|i: int| 0 <= i < digits@.len() implies #[trigger] digits@[i] < 0x80 by {
                        if *n < 0 && i > 0 {
                            assert(digits@[i] == decimal(m)[i - 1]);
                        }
                    }
                }
                let d = ascii_string(digits.as_slice());
                joined("invalid coordinate: ", d.as_str(), "")
            },
        }
    }
}

} // verus!
