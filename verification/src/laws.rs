//! The codec's general guarantees, each proved once and for all inputs:
//! encoded values are pure ASCII and survive a round trip, a successful
//! decode only ever comes from a whole well-formed value, the sampling
//! default and the explicit flag behave as stated, and zero identifiers are
//! always rejected.

use vstd::prelude::*;

use crate::context::{DecodeError, TraceContext};
use crate::digits::{
    all_dec, all_hex, dec_seq, dec_val, hex_digit_val, hex_seq, hex_val, is_dec_digit,
    is_hex_digit, lemma_dec_seq_val, lemma_dec_seq_wf, lemma_hex_seq_val, lemma_hex_seq_wf,
    lemma_hex_val_bound, lemma_pow10_20, lemma_pow16_32,
};
use crate::grammar::{
    construct_spec, decode_spec, encode_spec, grammar_ok, is_space_byte, leading_dec_digits,
    lemma_leading_dec_digits_is, span_count, span_digits, spec_sampled, trim_back, trim_front,
    trim_spec, DIGIT_ONE, DIGIT_ZERO, EQUALS_SIGN, LETTER_O, SEMICOLON, SLASH,
};

verus! {

/// What `leading_dec_digits` counts: a run of digits, ended by the end of
/// the sequence or a non-digit.
pub proof fn lemma_leading_dec_digits_facts(s: Seq<u8>)
    ensures
        0 <= leading_dec_digits(s) <= s.len(),
        forall|j: int| 0 <= j < leading_dec_digits(s) ==> is_dec_digit(s[j]),
        leading_dec_digits(s) == s.len() || !is_dec_digit(s[leading_dec_digits(s)]),
    decreases s.len(),
{
    if s.len() > 0 && is_dec_digit(s[0]) {
        let t = s.subrange(1, s.len() as int);
        lemma_leading_dec_digits_facts(t);
        let k = leading_dec_digits(s);
        assert(k == 1 + leading_dec_digits(t));
        assert forall|j: int| 0 <= j < k implies is_dec_digit(s[j]) by {
            if j > 0 {
                assert(t[j - 1] == s[j]);
                assert(is_dec_digit(t[j - 1]));
            }
        };
        if k < s.len() {
            assert(t[k - 1] == s[k]);
        }
    }
}

/// Every byte of an encoded value is ASCII.
pub proof fn lemma_encode_spec_ascii(c: TraceContext)
    ensures
        forall|i: int| 0 <= i < encode_spec(c).len() ==> encode_spec(c)[i] < 128,
{
    let e = encode_spec(c);
    let hs = hex_seq(c.trace_id as nat, 32);
    let ds = dec_seq(c.span_id as nat);
    let dl = ds.len() as int;
    lemma_hex_seq_wf(c.trace_id as nat, 32);
    lemma_pow10_20();
    lemma_dec_seq_wf(c.span_id as nat, 20);
    assert(e.len() == 37 + dl);
    assert forall|i: int| 0 <= i < e.len() implies e[i] < 128 by {
        if i < 32 {
            assert(e[i] == hs[i]);
            assert(is_hex_digit(hs[i]));
        } else if i == 32 {
            assert(e[i] == SLASH);
        } else if i < 33 + dl {
            assert(e[i] == ds[i - 33]);
            assert(is_dec_digit(ds[i - 33]));
        } else if i == 33 + dl {
            assert(e[i] == SEMICOLON);
        } else if i == 34 + dl {
            assert(e[i] == LETTER_O);
        } else if i == 35 + dl {
            assert(e[i] == EQUALS_SIGN);
        } else {
            assert(e[i] == (if c.sampled {
                DIGIT_ONE
            } else {
                DIGIT_ZERO
            }));
        }
    };
}

/// Round trip: a valid context's encoding needs no trimming, and decodes
/// back to the same trace id, span id and sampling decision.
pub proof fn lemma_round_trip(c: TraceContext)
    requires
        c.valid(),
    ensures
        trim_spec(encode_spec(c)) == encode_spec(c),
        decode_spec(encode_spec(c)) == Ok::<TraceContext, DecodeError>(c),
{
    let t = c.trace_id as nat;
    let sp = c.span_id as nat;
    let e = encode_spec(c);
    let hs = hex_seq(t, 32);
    let ds = dec_seq(sp);
    let dl = ds.len() as int;
    let flag = if c.sampled {
        DIGIT_ONE
    } else {
        DIGIT_ZERO
    };
    lemma_hex_seq_wf(t, 32);
    lemma_pow16_32();
    lemma_hex_seq_val(t, 32);
    lemma_pow10_20();
    lemma_dec_seq_wf(sp, 20);
    lemma_dec_seq_val(sp);
    assert(e.len() == 37 + dl);

    // the layout of the encoded value
    assert(e.subrange(0, 32) =~= hs);
    assert(e[32] == SLASH);
    let rest = e.subrange(33, e.len() as int);
    assert(rest =~= ds + seq![SEMICOLON, LETTER_O, EQUALS_SIGN, flag]);
    assert forall|j: int| 0 <= j < dl implies is_dec_digit(rest[j]) by {
        assert(rest[j] == ds[j]);
    };
    assert(rest[dl] == SEMICOLON);
    lemma_leading_dec_digits_is(rest, dl);
    assert(span_count(e) == dl);
    assert(e[33 + dl] == SEMICOLON);
    assert(e[34 + dl] == LETTER_O);
    assert(e[35 + dl] == EQUALS_SIGN);
    assert(e[36 + dl] == flag);
    assert(is_dec_digit(flag));
    assert(grammar_ok(e));

    // what the decode reads back out
    assert(span_digits(e) =~= ds);
    assert(spec_sampled(e) == c.sampled);
    assert(hex_val(e.subrange(0, 32)) == t);
    assert(dec_val(span_digits(e)) == sp);
    assert(decode_spec(e) == construct_spec(c.sampled, e.subrange(0, 32), span_digits(e)));
    assert(construct_spec(c.sampled, e.subrange(0, 32), span_digits(e)) == Ok::<
        TraceContext,
        DecodeError,
    >(TraceContext { trace_id: c.trace_id, span_id: c.span_id, sampled: c.sampled }));
    assert(TraceContext { trace_id: c.trace_id, span_id: c.span_id, sampled: c.sampled } == c);

    // no byte of the value is whitespace at either end
    assert(is_hex_digit(e[0]));
    assert(!is_space_byte(e[0]));
    assert(trim_front(e) == e);
    assert(e.last() == flag);
    assert(!is_space_byte(e.last()));
    assert(trim_back(e) == e);
}

/// A successful decode only comes from a value that matches the whole
/// grammar, and never yields a partially populated context: both
/// identifiers are non-zero.
pub proof fn lemma_decode_ok_is_whole(s: Seq<u8>, c: TraceContext)
    requires
        decode_spec(s) == Ok::<TraceContext, DecodeError>(c),
    ensures
        grammar_ok(s),
        c.valid(),
        c.sampled == spec_sampled(s),
{
    lemma_hex_val_bound(s.subrange(0, 32));
    lemma_pow16_32();
}

/// A well-formed value with no `;o=` suffix decodes as sampled.
pub proof fn lemma_default_sampled(s: Seq<u8>, c: TraceContext)
    requires
        decode_spec(s) == Ok::<TraceContext, DecodeError>(c),
        forall|i: int| 0 <= i < s.len() ==> s[i] != SEMICOLON,
    ensures
        c.sampled,
{
    let k = span_count(s);
    if s.len() != 33 + k {
        assert(s[33 + k] == SEMICOLON);
    }
}

/// A well-formed value ending in `;o=<d>` decodes as sampled exactly when
/// the digit `d` is not `0`.
pub proof fn lemma_explicit_flag(s: Seq<u8>, c: TraceContext, d: u8)
    requires
        decode_spec(s) == Ok::<TraceContext, DecodeError>(c),
        s.len() >= 4,
        s.subrange(s.len() - 4, s.len() as int) == seq![SEMICOLON, LETTER_O, EQUALS_SIGN, d],
    ensures
        c.sampled <==> d != DIGIT_ZERO,
{
    let n = s.len() as int;
    let k = span_count(s);
    let suffix = s.subrange(n - 4, n);
    assert(suffix[0] == s[n - 4]);
    assert(suffix[3] == s[n - 1]);
    assert(s[n - 4] == SEMICOLON);
    if s.len() == 33 + k {
        // without a suffix every byte after the slash is a digit, and the
        // earlier bytes are hex digits or the slash: none is a semicolon
        let rest = s.subrange(33, n);
        lemma_leading_dec_digits_facts(rest);
        if n - 4 >= 33 {
            assert(rest[n - 4 - 33] == s[n - 4]);
            assert(is_dec_digit(s[n - 4]));
        } else if n - 4 == 32 {
            assert(s[32] == SLASH);
        } else {
            assert(s.subrange(0, 32)[n - 4] == s[n - 4]);
            assert(is_hex_digit(s[n - 4]));
        }
        assert(false);
    } else {
        assert(s.len() == 37 + k);
        assert(spec_sampled(s) == (s[n - 1] != DIGIT_ZERO));
        assert(c.sampled == spec_sampled(s));
    }
}

/// A value whose trace id is 32 zero digits, or whose span id denotes zero,
/// is rejected even when it is otherwise well-formed.
pub proof fn lemma_zero_ids_rejected(s: Seq<u8>)
    requires
        grammar_ok(s),
        (forall|i: int| 0 <= i < 32 ==> s[i] == DIGIT_ZERO) || dec_val(span_digits(s)) == 0,
    ensures
        decode_spec(s) is Err,
{
    let tg = s.subrange(0, 32);
    let sg = span_digits(s);
    if forall|i: int| 0 <= i < 32 ==> s[i] == DIGIT_ZERO {
        assert forall|i: int| 0 <= i < tg.len() implies tg[i] == DIGIT_ZERO by {
            assert(tg[i] == s[i]);
        };
        lemma_hex_val_zero_digits(tg);
    }
}

/// A string of `0` digits denotes zero.
proof fn lemma_hex_val_zero_digits(t: Seq<u8>)
    requires
        forall|i: int| 0 <= i < t.len() ==> t[i] == DIGIT_ZERO,
    ensures
        hex_val(t) == 0,
    decreases t.len(),
{
    if t.len() > 0 {
        lemma_hex_val_zero_digits(t.drop_last());
        assert(hex_digit_val(DIGIT_ZERO) == 0);
    }
}

} // verus!
