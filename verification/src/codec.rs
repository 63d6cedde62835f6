//! The executable side of the codec: trimming, grammar matching, and the
//! byte-level decode and encode, each proved against the specs in
//! `grammar`.

use vstd::prelude::*;

use crate::context::{DecodeError, TraceContext};
use crate::digits::{
    all_hex, check_all_dec, check_all_hex, dec_digits, hex_digits, is_dec_byte, is_dec_digit,
    is_hex_byte, is_hex_digit, lemma_hex_val_bound, lemma_pow16_32, parse_dec, parse_hex32,
};
use crate::grammar::{
    decode_spec, encode_spec, construct_spec, grammar_ok, is_space_byte,
    lemma_leading_dec_digits_is, span_count, span_digits, spec_sampled, trim_back, trim_front,
    trim_spec, DIGIT_ONE, DIGIT_ZERO, EQUALS_SIGN, LETTER_O, SEMICOLON, SLASH,
};

verus! {

/// Copies `v[lo..hi]` out into a vector of its own.
pub fn copy_range(v: &Vec<u8>, lo: usize, hi: usize) -> (r: Vec<u8>)
    requires
        lo <= hi <= v@.len(),
    ensures
        r@ == v@.subrange(lo as int, hi as int),
{
    let mut r: Vec<u8> = Vec::new();
    let mut i: usize = lo;
    proof {
        assert(r@ =~= v@.subrange(lo as int, lo as int));
    }
    while i < hi
        invariant
            lo <= i <= hi <= v@.len(),
            r@ == v@.subrange(lo as int, i as int),
        decreases hi - i,
    {
        r.push(v[i]);
        proof {
            assert(r@ =~= v@.subrange(lo as int, i as int + 1));
        }
        i = i + 1;
    }
    r
}

/// Removes surrounding ASCII whitespace.
pub fn trim_bytes(v: &Vec<u8>) -> (r: Vec<u8>)
    ensures
        r@ == trim_spec(v@),
{
    let len = v.len();
    let mut lo: usize = 0;
    proof {
        assert(v@.subrange(0, len as int) =~= v@);
    }
    while lo < len && is_space_byte_exec(v[lo])
        invariant
            lo <= len == v@.len(),
            trim_front(v@) == trim_front(v@.subrange(lo as int, len as int)),
        decreases len - lo,
    {
        proof {
            let cur = v@.subrange(lo as int, len as int);
            assert(cur[0] == v@[lo as int]);
            assert(cur.subrange(1, cur.len() as int) =~= v@.subrange(lo as int + 1, len as int));
        }
        lo = lo + 1;
    }
    proof {
        let cur = v@.subrange(lo as int, len as int);
        if lo < len {
            assert(cur[0] == v@[lo as int]);
        }
        assert(trim_front(v@) == cur);
    }
    let mut hi: usize = len;
    while hi > lo && is_space_byte_exec(v[hi - 1])
        invariant
            lo <= hi <= len == v@.len(),
            trim_front(v@) == v@.subrange(lo as int, len as int),
            trim_back(v@.subrange(lo as int, len as int)) == trim_back(
                v@.subrange(lo as int, hi as int),
            ),
        decreases hi,
    {
        proof {
            let cur = v@.subrange(lo as int, hi as int);
            assert(cur.last() == v@[hi as int - 1]);
            assert(cur.drop_last() =~= v@.subrange(lo as int, hi as int - 1));
        }
        hi = hi - 1;
    }
    proof {
        let cur = v@.subrange(lo as int, hi as int);
        if hi > lo {
            assert(cur.last() == v@[hi as int - 1]);
        }
        assert(trim_back(cur) == cur);
        assert(trim_spec(v@) == v@.subrange(lo as int, hi as int));
    }
    copy_range(v, lo, hi)
}

fn is_space_byte_exec(b: u8) -> (r: bool)
    ensures
        r == is_space_byte(b),
{
    b == 32 || (9 <= b && b <= 13)
}

/// Matches the value against the grammar; on a match, hands back how many
/// decimal digits the span-id group has.
pub fn grammar_split(v: &Vec<u8>) -> (r: Option<usize>)
    ensures
        r is Some <==> grammar_ok(v@),
        r matches Some(k) ==> k as int == span_count(v@),
{
    if v.len() < 34 {
        return None;
    }
    let mut i: usize = 0;
    while i < 32
        invariant
            i <= 32,
            v@.len() >= 34,
            forall|j: int| 0 <= j < i ==> is_hex_digit(v@[j]),
        decreases 32 - i,
    {
        if !is_hex_byte(v[i]) {
            proof {
                assert(v@.subrange(0, 32)[i as int] == v@[i as int]);
                assert(!all_hex(v@.subrange(0, 32)));
            }
            return None;
        }
        i = i + 1;
    }
    proof {
        assert(forall|j: int| 0 <= j < 32 ==> v@.subrange(0, 32)[j] == v@[j]);
        assert(all_hex(v@.subrange(0, 32)));
    }
    if v[32] != SLASH {
        return None;
    }
    let mut pos: usize = 33;
    while pos < v.len() && is_dec_byte(v[pos])
        invariant
            33 <= pos <= v@.len(),
            forall|j: int| 33 <= j < pos ==> is_dec_digit(#[trigger] v@[j]),
        decreases v@.len() - pos,
    {
        pos = pos + 1;
    }
    let k = pos - 33;
    proof {
        let rest = v@.subrange(33, v@.len() as int);
        assert(forall|j: int| 0 <= j < k ==> rest[j] == v@[33 + j]);
        if pos < v@.len() {
            assert(rest[k as int] == v@[pos as int]);
        }
        lemma_leading_dec_digits_is(rest, k as int);
        assert(span_count(v@) == k as int);
    }
    if k < 1 || k > 20 {
        return None;
    }
    if pos == v.len() {
        return Some(k);
    }
    if v.len() == 37 + k && v[pos] == SEMICOLON && v[pos + 1] == LETTER_O && v[pos + 2]
        == EQUALS_SIGN && is_dec_byte(v[pos + 3]) {
        Some(k)
    } else {
        None
    }
}

/// Builds the context from its sampling decision and its two digit groups,
/// checking each field as the grammar and the validity rule demand.
pub fn construct_context_bytes(sampled: bool, t: &Vec<u8>, sp: &Vec<u8>) -> (r: Result<
    TraceContext,
    DecodeError,
>)
    ensures
        r == construct_spec(sampled, t@, sp@),
{
    if !(t.len() == 32 && check_all_hex(t)) {
        return Err(DecodeError::InvalidTraceId);
    }
    if !(sp.len() >= 1 && check_all_dec(sp)) {
        return Err(DecodeError::InvalidSpanId);
    }
    let trace_id = parse_hex32(t);
    let span_id = match parse_dec(sp) {
        None => {
            return Err(DecodeError::InvalidSpanId);
        },
        Some(x) => x,
    };
    if trace_id == 0 || span_id == 0 {
        return Err(DecodeError::InvalidContext);
    }
    proof {
        lemma_hex_val_bound(t@);
        lemma_pow16_32();
    }
    Ok(TraceContext { trace_id, span_id, sampled })
}

/// Decodes one already-trimmed header value.
pub fn decode_bytes(v: &Vec<u8>) -> (r: Result<TraceContext, DecodeError>)
    ensures
        r == decode_spec(v@),
{
    let k = match grammar_split(v) {
        None => {
            return Err(DecodeError::Malformed);
        },
        Some(k) => k,
    };
    let trace_group = copy_range(v, 0, 32);
    let span_group = copy_range(v, 33, 33 + k);
    let sampled = if 33 + k == v.len() {
        true
    } else {
        v[v.len() - 1] != DIGIT_ZERO
    };
    proof {
        assert(sampled == spec_sampled(v@));
        assert(span_group@ == span_digits(v@));
    }
    construct_context_bytes(sampled, &trace_group, &span_group)
}

/// Encodes a context as header-value bytes.
pub fn encode_bytes(c: &TraceContext) -> (r: Vec<u8>)
    ensures
        r@ == encode_spec(*c),
{
    let mut r = hex_digits(c.trace_id, 32);
    r.push(SLASH);
    let mut span_part = dec_digits(c.span_id);
    r.append(&mut span_part);
    r.push(SEMICOLON);
    r.push(LETTER_O);
    r.push(EQUALS_SIGN);
    if c.sampled {
        r.push(DIGIT_ONE);
    } else {
        r.push(DIGIT_ZERO);
    }
    proof {
        assert(r@ =~= encode_spec(*c));
    }
    r
}

} // verus!
