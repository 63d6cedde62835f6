//! The header-value grammar and the codec's meaning, stated over byte
//! sequences: what a well-formed value looks like, what a value decodes to,
//! and what a context encodes to.
//!
//! A well-formed value is, after surrounding whitespace is removed:
//!
//! ```text
//! <32 lowercase hex digits> "/" <1 to 20 decimal digits> [ ";o=" <1 digit> ]
//! ```

use vstd::prelude::*;

use crate::context::{DecodeError, TraceContext};
use crate::digits::{all_dec, all_hex, dec_seq, dec_val, hex_seq, hex_val, is_dec_digit};

verus! {

pub const SLASH: u8 = 47;

pub const SEMICOLON: u8 = 59;

pub const LETTER_O: u8 = 111;

pub const EQUALS_SIGN: u8 = 61;

pub const DIGIT_ZERO: u8 = 48;

pub const DIGIT_ONE: u8 = 49;

/// ASCII whitespace: tab through carriage return, and space.
pub open spec fn is_space_byte(b: u8) -> bool {
    b == 32 || (9 <= b && b <= 13)
}

pub open spec fn trim_front(s: Seq<u8>) -> Seq<u8>
    decreases s.len(),
{
    if s.len() > 0 && is_space_byte(s[0]) {
        trim_front(s.subrange(1, s.len() as int))
    } else {
        s
    }
}

pub open spec fn trim_back(s: Seq<u8>) -> Seq<u8>
    decreases s.len(),
{
    if s.len() > 0 && is_space_byte(s.last()) {
        trim_back(s.drop_last())
    } else {
        s
    }
}

/// The value with surrounding whitespace removed.
pub open spec fn trim_spec(s: Seq<u8>) -> Seq<u8> {
    trim_back(trim_front(s))
}

/// How many decimal digits the sequence starts with.
pub open spec fn leading_dec_digits(s: Seq<u8>) -> int
    decreases s.len(),
{
    if s.len() > 0 && is_dec_digit(s[0]) {
        1 + leading_dec_digits(s.subrange(1, s.len() as int))
    } else {
        0
    }
}

/// The number of span-id digits, counted after the 32 hex digits and the
/// slash. Meaningful only when `s.len() >= 34`.
pub open spec fn span_count(s: Seq<u8>) -> int {
    leading_dec_digits(s.subrange(33, s.len() as int))
}

/// The span-id digit group.
pub open spec fn span_digits(s: Seq<u8>) -> Seq<u8> {
    s.subrange(33, 33 + span_count(s))
}

/// Whether the whole value matches the grammar: 32 lowercase hex digits, a
/// slash, 1 to 20 decimal digits, and at most one `;o=<digit>` suffix, with
/// nothing else before or after.
pub open spec fn grammar_ok(s: Seq<u8>) -> bool {
    s.len() >= 34 && all_hex(s.subrange(0, 32)) && s[32] == SLASH && {
        let k = span_count(s);
        1 <= k <= 20 && (s.len() == 33 + k || (s.len() == 37 + k && s[33 + k] == SEMICOLON && s[
            34 + k
        ] == LETTER_O && s[35 + k] == EQUALS_SIGN && is_dec_digit(s[36 + k])))
    }
}

/// The sampling decision a well-formed value carries: sampled unless the
/// optional suffix is present and its digit is exactly `0`.
pub open spec fn spec_sampled(s: Seq<u8>) -> bool {
    s.len() == 33 + span_count(s) || s[s.len() - 1] != DIGIT_ZERO
}

/// What building a context from its two textual fields yields: the trace id
/// must be exactly 32 lowercase hex digits, the span id a decimal number
/// that fits in 64 bits, and neither identifier may be zero.
pub open spec fn construct_spec(sampled: bool, t: Seq<u8>, sp: Seq<u8>) -> Result<
    TraceContext,
    DecodeError,
> {
    if !(t.len() == 32 && all_hex(t)) {
        Err(DecodeError::InvalidTraceId)
    } else if !(sp.len() >= 1 && all_dec(sp)) || dec_val(sp) > u64::MAX {
        Err(DecodeError::InvalidSpanId)
    } else if hex_val(t) == 0 || dec_val(sp) == 0 {
        Err(DecodeError::InvalidContext)
    } else {
        Ok(TraceContext { trace_id: hex_val(t) as u128, span_id: dec_val(sp) as u64, sampled })
    }
}

/// What a (already trimmed) header value decodes to.
pub open spec fn decode_spec(s: Seq<u8>) -> Result<TraceContext, DecodeError> {
    if !grammar_ok(s) {
        Err(DecodeError::Malformed)
    } else {
        construct_spec(spec_sampled(s), s.subrange(0, 32), span_digits(s))
    }
}

/// The header value a context encodes to: the trace id zero-padded to 32
/// lowercase hex digits, a slash, the span id in minimal decimal form, and
/// the suffix `;o=1` or `;o=0` for the sampling decision.
pub open spec fn encode_spec(c: TraceContext) -> Seq<u8> {
    hex_seq(c.trace_id as nat, 32) + seq![SLASH] + dec_seq(c.span_id as nat) + seq![
        SEMICOLON,
        LETTER_O,
        EQUALS_SIGN,
    ] + seq![if c.sampled { DIGIT_ONE } else { DIGIT_ZERO }]
}

/// A sequence that starts with exactly `k` decimal digits has `k` leading
/// digits.
pub proof fn lemma_leading_dec_digits_is(s: Seq<u8>, k: int)
    requires
        0 <= k <= s.len(),
        forall|j: int| 0 <= j < k ==> is_dec_digit(s[j]),
        k == s.len() || !is_dec_digit(s[k]),
    ensures
        leading_dec_digits(s) == k,
    decreases k,
{
    if k == 0 {
    } else {
        let t = s.subrange(1, s.len() as int);
        assert(forall|j: int| 0 <= j < k - 1 ==> t[j] == s[j + 1]);
        lemma_leading_dec_digits_is(t, k - 1);
    }
}

} // verus!
