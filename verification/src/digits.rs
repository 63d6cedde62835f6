//! Hex and decimal digit strings as byte sequences: their numeric values,
//! and verified conversions in both directions.

use vstd::prelude::*;

verus! {

/// A lowercase hexadecimal digit, as the grammar accepts: `0`-`9` or `a`-`f`.
pub open spec fn is_hex_digit(b: u8) -> bool {
    (48 <= b && b <= 57) || (97 <= b && b <= 102)
}

/// A decimal digit `0`-`9`.
pub open spec fn is_dec_digit(b: u8) -> bool {
    48 <= b && b <= 57
}

pub open spec fn hex_digit_val(b: u8) -> nat {
    if 48 <= b && b <= 57 {
        (b - 48) as nat
    } else if 97 <= b && b <= 102 {
        (b - 97 + 10) as nat
    } else {
        0
    }
}

pub open spec fn dec_digit_val(b: u8) -> nat {
    if is_dec_digit(b) {
        (b - 48) as nat
    } else {
        0
    }
}

/// The byte that renders the digit value `d` (`d < 16`) in lowercase hex.
pub open spec fn hex_digit_byte(d: nat) -> u8 {
    if d < 10 {
        (48 + d) as u8
    } else {
        (87 + d) as u8
    }
}

/// The byte that renders the digit value `d` (`d < 10`) in decimal.
pub open spec fn dec_digit_byte(d: nat) -> u8 {
    (48 + d) as u8
}

pub open spec fn all_hex(s: Seq<u8>) -> bool {
    forall|i: int| 0 <= i < s.len() ==> is_hex_digit(s[i])
}

pub open spec fn all_dec(s: Seq<u8>) -> bool {
    forall|i: int| 0 <= i < s.len() ==> is_dec_digit(s[i])
}

/// The number a string of hex digits denotes, most significant digit first.
pub open spec fn hex_val(s: Seq<u8>) -> nat
    decreases s.len(),
{
    if s.len() == 0 {
        0
    } else {
        hex_val(s.drop_last()) * 16 + hex_digit_val(s.last())
    }
}

/// The number a string of decimal digits denotes, most significant first.
pub open spec fn dec_val(s: Seq<u8>) -> nat
    decreases s.len(),
{
    if s.len() == 0 {
        0
    } else {
        dec_val(s.drop_last()) * 10 + dec_digit_val(s.last())
    }
}

pub open spec fn pow16(n: nat) -> nat
    decreases n,
{
    if n == 0 {
        1
    } else {
        16 * pow16((n - 1) as nat)
    }
}

pub open spec fn pow10(n: nat) -> nat
    decreases n,
{
    if n == 0 {
        1
    } else {
        10 * pow10((n - 1) as nat)
    }
}

/// The `n` lowercase hex digits of `v mod 16^n`, most significant first.
pub open spec fn hex_seq(v: nat, n: nat) -> Seq<u8>
    decreases n,
{
    if n == 0 {
        Seq::empty()
    } else {
        hex_seq(v / 16, (n - 1) as nat).push(hex_digit_byte(v % 16))
    }
}

/// The minimal decimal rendering of `v`, most significant digit first.
pub open spec fn dec_seq(v: nat) -> Seq<u8>
    decreases v,
{
    if v < 10 {
        seq![dec_digit_byte(v)]
    } else {
        dec_seq(v / 10).push(dec_digit_byte(v % 10))
    }
}

pub proof fn lemma_pow16_mono(a: nat, b: nat)
    requires
        a <= b,
    ensures
        pow16(a) <= pow16(b),
    decreases b,
{
    if a < b {
        lemma_pow16_mono(a, (b - 1) as nat);
        assert(pow16((b - 1) as nat) >= 1) by {
            lemma_pow16_pos((b - 1) as nat);
        }
    }
}

pub proof fn lemma_pow16_pos(n: nat)
    ensures
        pow16(n) >= 1,
    decreases n,
{
    if n > 0 {
        lemma_pow16_pos((n - 1) as nat);
    }
}

pub proof fn lemma_pow16_32()
    ensures
        pow16(32) == 0x100000000000000000000000000000000,
{
    assert(pow16(0) == 0x1);
    assert(pow16(1) == 0x10);
    assert(pow16(2) == 0x100);
    assert(pow16(3) == 0x1000);
    assert(pow16(4) == 0x10000);
    assert(pow16(5) == 0x100000);
    assert(pow16(6) == 0x1000000);
    assert(pow16(7) == 0x10000000);
    assert(pow16(8) == 0x100000000);
    assert(pow16(9) == 0x1000000000);
    assert(pow16(10) == 0x10000000000);
    assert(pow16(11) == 0x100000000000);
    assert(pow16(12) == 0x1000000000000);
    assert(pow16(13) == 0x10000000000000);
    assert(pow16(14) == 0x100000000000000);
    assert(pow16(15) == 0x1000000000000000);
    assert(pow16(16) == 0x10000000000000000);
    assert(pow16(17) == 0x100000000000000000);
    assert(pow16(18) == 0x1000000000000000000);
    assert(pow16(19) == 0x10000000000000000000);
    assert(pow16(20) == 0x100000000000000000000);
    assert(pow16(21) == 0x1000000000000000000000);
    assert(pow16(22) == 0x10000000000000000000000);
    assert(pow16(23) == 0x100000000000000000000000);
    assert(pow16(24) == 0x1000000000000000000000000);
    assert(pow16(25) == 0x10000000000000000000000000);
    assert(pow16(26) == 0x100000000000000000000000000);
    assert(pow16(27) == 0x1000000000000000000000000000);
    assert(pow16(28) == 0x10000000000000000000000000000);
    assert(pow16(29) == 0x100000000000000000000000000000);
    assert(pow16(30) == 0x1000000000000000000000000000000);
    assert(pow16(31) == 0x10000000000000000000000000000000);
    assert(pow16(32) == 0x100000000000000000000000000000000);
}

pub proof fn lemma_pow10_20()
    ensures
        pow10(20) == 100000000000000000000,
{
    assert(pow10(0) == 1);
    assert(pow10(1) == 10);
    assert(pow10(2) == 100);
    assert(pow10(3) == 1000);
    assert(pow10(4) == 10000);
    assert(pow10(5) == 100000);
    assert(pow10(6) == 1000000);
    assert(pow10(7) == 10000000);
    assert(pow10(8) == 100000000);
    assert(pow10(9) == 1000000000);
    assert(pow10(10) == 10000000000);
    assert(pow10(11) == 100000000000);
    assert(pow10(12) == 1000000000000);
    assert(pow10(13) == 10000000000000);
    assert(pow10(14) == 100000000000000);
    assert(pow10(15) == 1000000000000000);
    assert(pow10(16) == 10000000000000000);
    assert(pow10(17) == 100000000000000000);
    assert(pow10(18) == 1000000000000000000);
    assert(pow10(19) == 10000000000000000000);
    assert(pow10(20) == 100000000000000000000);
}

/// The value of a hex string is below 16 to the power of its length.
pub proof fn lemma_hex_val_bound(s: Seq<u8>)
    ensures
        hex_val(s) < pow16(s.len()),
    decreases s.len(),
{
    if s.len() > 0 {
        lemma_hex_val_bound(s.drop_last());
    }
}

/// Unfolds `hex_val` at the right end of a prefix.
pub proof fn lemma_hex_val_snoc(s: Seq<u8>, i: int)
    requires
        0 <= i < s.len(),
    ensures
        hex_val(s.subrange(0, i + 1)) == hex_val(s.subrange(0, i)) * 16 + hex_digit_val(s[i]),
{
    let t = s.subrange(0, i + 1);
    assert(t.drop_last() =~= s.subrange(0, i));
    assert(t.last() == s[i]);
}

/// Unfolds `dec_val` at the right end of a prefix.
pub proof fn lemma_dec_val_snoc(s: Seq<u8>, i: int)
    requires
        0 <= i < s.len(),
    ensures
        dec_val(s.subrange(0, i + 1)) == dec_val(s.subrange(0, i)) * 10 + dec_digit_val(s[i]),
{
    let t = s.subrange(0, i + 1);
    assert(t.drop_last() =~= s.subrange(0, i));
    assert(t.last() == s[i]);
}

/// A longer prefix of a digit string never denotes a smaller number.
pub proof fn lemma_dec_val_prefix_mono(s: Seq<u8>, i: int, j: int)
    requires
        0 <= i <= j <= s.len(),
    ensures
        dec_val(s.subrange(0, i)) <= dec_val(s.subrange(0, j)),
    decreases j - i,
{
    if i < j {
        lemma_dec_val_prefix_mono(s, i, j - 1);
        lemma_dec_val_snoc(s, j - 1);
    }
}

fn hex_byte_val(b: u8) -> (r: u8)
    requires
        is_hex_digit(b),
    ensures
        r as nat == hex_digit_val(b),
        r < 16,
{
    if b <= 57 {
        b - 48
    } else {
        b - 97 + 10
    }
}

fn hex_digit_byte_exec(d: u8) -> (r: u8)
    requires
        d < 16,
    ensures
        r == hex_digit_byte(d as nat),
{
    if d < 10 {
        48 + d
    } else {
        87 + d
    }
}

fn dec_digit_byte_exec(d: u8) -> (r: u8)
    requires
        d < 10,
    ensures
        r == dec_digit_byte(d as nat),
{
    48 + d
}

pub fn is_hex_byte(b: u8) -> (r: bool)
    ensures
        r == is_hex_digit(b),
{
    (48 <= b && b <= 57) || (97 <= b && b <= 102)
}

pub fn is_dec_byte(b: u8) -> (r: bool)
    ensures
        r == is_dec_digit(b),
{
    48 <= b && b <= 57
}

pub fn check_all_hex(v: &Vec<u8>) -> (r: bool)
    ensures
        r == all_hex(v@),
{
    let mut i: usize = 0;
    while i < v.len()
        invariant
            i <= v@.len(),
            forall|j: int| 0 <= j < i ==> is_hex_digit(v@[j]),
        decreases v@.len() - i,
    {
        if !is_hex_byte(v[i]) {
            return false;
        }
        i = i + 1;
    }
    true
}

pub fn check_all_dec(v: &Vec<u8>) -> (r: bool)
    ensures
        r == all_dec(v@),
{
    let mut i: usize = 0;
    while i < v.len()
        invariant
            i <= v@.len(),
            forall|j: int| 0 <= j < i ==> is_dec_digit(v@[j]),
        decreases v@.len() - i,
    {
        if !is_dec_byte(v[i]) {
            return false;
        }
        i = i + 1;
    }
    true
}

/// Reads a 32-digit lowercase hex string as a 128-bit number. The result
/// always fits: 32 hex digits denote less than 16^32 = 2^128.
pub fn parse_hex32(v: &Vec<u8>) -> (r: u128)
    requires
        v@.len() == 32,
        all_hex(v@),
    ensures
        r as nat == hex_val(v@),
{
    let mut acc: u128 = 0;
    let mut i: usize = 0;
    while i < 32
        invariant
            i <= 32,
            v@.len() == 32,
            all_hex(v@),
            acc as nat == hex_val(v@.subrange(0, i as int)),
            (acc as nat) < pow16(i as nat),
        decreases 32 - i,
    {
        let d = hex_byte_val(v[i]);
        proof {
            lemma_hex_val_snoc(v@, i as int);
            assert(pow16((i + 1) as nat) == 16 * pow16(i as nat));
            lemma_pow16_mono((i + 1) as nat, 32);
            lemma_pow16_32();
        }
        acc = acc * 16 + d as u128;
        i = i + 1;
    }
    proof {
        assert(v@.subrange(0, 32) =~= v@);
    }
    acc
}

/// Reads a decimal digit string as a 64-bit number; `None` exactly when the
/// value does not fit in 64 bits.
pub fn parse_dec(v: &Vec<u8>) -> (r: Option<u64>)
    requires
        v@.len() >= 1,
        all_dec(v@),
    ensures
        r is Some <==> dec_val(v@) <= u64::MAX,
        r matches Some(x) ==> x as nat == dec_val(v@),
{
    let mut acc: u64 = 0;
    let mut i: usize = 0;
    while i < v.len()
        invariant
            i <= v@.len(),
            all_dec(v@),
            acc as nat == dec_val(v@.subrange(0, i as int)),
        decreases v@.len() - i,
    {
        let d = v[i] - 48;
        proof {
            lemma_dec_val_snoc(v@, i as int);
        }
        if acc > (u64::MAX - d as u64) / 10 {
            proof {
                lemma_dec_val_prefix_mono(v@, i as int + 1, v@.len() as int);
                assert(v@.subrange(0, v@.len() as int) =~= v@);
            }
            return None;
        }
        acc = acc * 10 + d as u64;
        i = i + 1;
    }
    proof {
        assert(v@.subrange(0, v@.len() as int) =~= v@);
    }
    Some(acc)
}

/// Renders the low `n` hex digits of `v`, most significant first.
pub fn hex_digits(v: u128, n: usize) -> (r: Vec<u8>)
    ensures
        r@ == hex_seq(v as nat, n as nat),
    decreases n,
{
    if n == 0 {
        let r: Vec<u8> = Vec::new();
        proof {
            assert(r@ =~= hex_seq(v as nat, 0));
        }
        r
    } else {
        let mut r = hex_digits(v / 16, n - 1);
        r.push(hex_digit_byte_exec((v % 16) as u8));
        r
    }
}

/// Renders `v` in its minimal decimal form.
pub fn dec_digits(v: u64) -> (r: Vec<u8>)
    ensures
        r@ == dec_seq(v as nat),
    decreases v,
{
    if v < 10 {
        let mut r: Vec<u8> = Vec::new();
        r.push(dec_digit_byte_exec(v as u8));
        proof {
            assert(r@ =~= dec_seq(v as nat));
        }
        r
    } else {
        proof {
            assert((v as nat) / 10 < v as nat) by (nonlinear_arith)
                requires
                    v >= 10,
            ;
        }
        let mut r = dec_digits(v / 10);
        r.push(dec_digit_byte_exec((v % 10) as u8));
        r
    }
}

/// A hex string of `n` digits always comes back with length `n`, every byte
/// a lowercase hex digit.
pub proof fn lemma_hex_seq_wf(v: nat, n: nat)
    ensures
        hex_seq(v, n).len() == n,
        all_hex(hex_seq(v, n)),
    decreases n,
{
    if n > 0 {
        lemma_hex_seq_wf(v / 16, (n - 1) as nat);
        let s = hex_seq(v, n);
        let t = hex_seq(v / 16, (n - 1) as nat);
        assert(forall|i: int| 0 <= i < t.len() ==> s[i] == t[i]);
        assert(is_hex_digit(hex_digit_byte(v % 16)));
    }
}

/// Rendering then reading a number below 16^n gives the number back.
pub proof fn lemma_hex_seq_val(v: nat, n: nat)
    requires
        v < pow16(n),
    ensures
        hex_val(hex_seq(v, n)) == v,
    decreases n,
{
    if n == 0 {
        assert(hex_val(hex_seq(v, 0)) == 0);
    } else {
        assert(v / 16 < pow16((n - 1) as nat)) by {
            assert(16 * (v / 16) + v % 16 == v);
        }
        lemma_hex_seq_val(v / 16, (n - 1) as nat);
        lemma_hex_seq_wf(v / 16, (n - 1) as nat);
        let s = hex_seq(v, n);
        assert(s.drop_last() =~= hex_seq(v / 16, (n - 1) as nat));
        assert(hex_digit_val(hex_digit_byte(v % 16)) == v % 16);
        assert(hex_val(s) == (v / 16) * 16 + v % 16);
    }
}

/// The minimal decimal rendering is 1 to `n` digits long whenever the value
/// is below 10^n, and every byte of it is a decimal digit.
pub proof fn lemma_dec_seq_wf(v: nat, n: nat)
    requires
        n >= 1,
        v < pow10(n),
    ensures
        1 <= dec_seq(v).len() <= n,
        all_dec(dec_seq(v)),
    decreases n,
{
    if v < 10 {
        assert(is_dec_digit(dec_digit_byte(v)));
        assert(dec_seq(v) =~= seq![dec_digit_byte(v)]);
    } else {
        assert(n >= 2) by {
            assert(pow10(0) == 1);
            assert(pow10(1) == 10);
        }
        assert(v / 10 < pow10((n - 1) as nat)) by {
            assert(10 * (v / 10) + v % 10 == v);
        }
        lemma_dec_seq_wf(v / 10, (n - 1) as nat);
        let s = dec_seq(v);
        let t = dec_seq(v / 10);
        assert(forall|i: int| 0 <= i < t.len() ==> s[i] == t[i]);
        assert(is_dec_digit(dec_digit_byte(v % 10)));
    }
}

/// Rendering then reading a number gives the number back.
pub proof fn lemma_dec_seq_val(v: nat)
    ensures
        dec_val(dec_seq(v)) == v,
    decreases v,
{
    if v < 10 {
        let s = dec_seq(v);
        assert(s =~= Seq::<u8>::empty().push(dec_digit_byte(v)));
        assert(s.len() == 1);
        assert(s.drop_last() =~= Seq::<u8>::empty());
        assert(dec_val(s.drop_last()) == 0);
        assert(s.last() == dec_digit_byte(v));
        assert(dec_digit_val(dec_digit_byte(v)) == v);
        assert(dec_val(s) == dec_val(s.drop_last()) * 10 + dec_digit_val(s.last()));
    } else {
        lemma_dec_seq_val(v / 10);
        let s = dec_seq(v);
        assert(s.drop_last() =~= dec_seq(v / 10));
        assert(s.last() == dec_digit_byte(v % 10));
        assert(dec_digit_val(dec_digit_byte(v % 10)) == v % 10);
        assert(10 * (v / 10) + v % 10 == v);
        assert(dec_val(s) == (v / 10) * 10 + v % 10);
    }
}

} // verus!
