//! Proof-of-work targets: 256-bit big-endian numbers.
//!
//! A share is worth its difficulty when its hash, read as a 256-bit
//! big-endian number, does not exceed the target. The target of difficulty 1
//! is `2^224 - 1`; the grinders work with powers of two, so a target is given
//! by the number of extra leading zero bits.

use crate::double::{lemma_leading_bit, lemma_whole_is_there, units_of, whole, Double, EXACT};
use vstd::arithmetic::div_mod::{
    lemma_div_denominator, lemma_div_is_ordered, lemma_fundamental_div_mod_converse, lemma_hoist_over_denominator,
    lemma_mod_multiples_vanish,
};
use vstd::arithmetic::power2::{
    lemma2_to64, lemma2_to64_rest, lemma_pow2_adds, lemma_pow2_pos, lemma_pow2_strictly_increases, pow2,
};
use vstd::prelude::*;

verus! {

// ---------------------------------------------------------------- numbers

/// The number that bytes spell in big-endian order.
pub open spec fn be_value(s: Seq<u8>) -> nat
    decreases s.len(),
{
    if s.len() == 0 {
        0
    } else {
        be_value(s.drop_last()) * 256 + s.last() as nat
    }
}

/// `256^n` as a power of two.
proof fn lemma_byte_power(n: nat)
    ensures
        pow2(8 * (n + 1)) == 256 * pow2(8 * n),
        pow2(8 * n) > 0,
{
    lemma2_to64();
    lemma_pow2_adds(8, 8 * n);
    lemma_pow2_pos(8 * n);
    assert(8 * (n + 1) == 8 + 8 * n);
}

/// A number of `n` bytes is below `256^n`.
pub proof fn lemma_be_value_bound(s: Seq<u8>)
    ensures
        be_value(s) < pow2(8 * s.len()),
    decreases s.len(),
{
    lemma2_to64();
    if s.len() > 0 {
        lemma_be_value_bound(s.drop_last());
        lemma_byte_power((s.len() - 1) as nat);
    }
}

/// The leading `n` bytes are the high digits, the rest the low digits.
pub proof fn lemma_be_value_split(s: Seq<u8>, n: int)
    requires
        0 <= n <= s.len(),
    ensures
        be_value(s) == be_value(s.take(n)) * pow2((8 * (s.len() - n)) as nat) + be_value(s.skip(n)),
    decreases s.len() - n,
{
    lemma2_to64();
    if n == s.len() {
        assert(s.take(n) =~= s);
        assert(s.skip(n).len() == 0);
        assert(be_value(s) * 1 == be_value(s)) by (nonlinear_arith);
    } else {
        let d = s.drop_last();
        lemma_be_value_split(d, n);
        assert(d.take(n) =~= s.take(n));
        assert(s.skip(n).drop_last() =~= d.skip(n));
        assert(s.skip(n).last() == s.last());
        let k = (s.len() - 1 - n) as nat;
        lemma_byte_power(k);
        let a = be_value(s.take(n));
        let p = pow2(8 * k);
        let b = be_value(d.skip(n));
        assert((8 * (s.len() - n)) as nat == 8 * (k + 1));
        assert((8 * (d.len() - n)) as nat == 8 * k);
        assert((a * p + b) * 256 + s.last() as nat == a * (256 * p) + (b * 256 + s.last() as nat))
            by (nonlinear_arith);
    }
}

/// Of two numbers of equal length that agree on their leading bytes, the one
/// with the smaller next byte is smaller.
proof fn lemma_be_value_less(a: Seq<u8>, b: Seq<u8>, i: int)
    requires
        a.len() == b.len(),
        0 <= i < a.len(),
        a.take(i) == b.take(i),
        a[i] < b[i],
    ensures
        be_value(a) < be_value(b),
{
    lemma_be_value_split(a, i + 1);
    lemma_be_value_split(b, i + 1);
    lemma_be_value_bound(a.skip(i + 1));
    assert(a.take(i + 1).drop_last() =~= a.take(i));
    assert(b.take(i + 1).drop_last() =~= b.take(i));
    let p = pow2((8 * (a.len() - i - 1)) as nat) as int;
    let x = be_value(a.take(i + 1)) as int;
    let y = be_value(b.take(i + 1)) as int;
    assert(x + 1 <= y);
    assert((x + 1) * p <= y * p) by (nonlinear_arith)
        requires
            x + 1 <= y,
            p >= 0,
    ;
    assert((x + 1) * p == x * p + p) by (nonlinear_arith);
    assert(a.skip(i + 1).len() == a.len() - i - 1);
}

// ------------------------------------------------------------- comparison

/// Whether a hash meets a target: as numbers, `h <= target`.
pub fn hash_le_target(h: &[u8; 32], target: &[u8; 32]) -> (r: bool)
    ensures
        r == (be_value(h@) <= be_value(target@)),
{
    let mut i: usize = 0;
    while i < 32
        invariant
            i <= 32,
            h@.take(i as int) == target@.take(i as int),
        decreases 32 - i,
    {
        if h[i] < target[i] {
            proof {
                lemma_be_value_less(h@, target@, i as int);
            }
            return true;
        }
        if h[i] > target[i] {
            proof {
                lemma_be_value_less(target@, h@, i as int);
            }
            return false;
        }
        assert(h@.take(i + 1) =~= h@.take(i as int).push(h@[i as int]));
        assert(target@.take(i + 1) =~= target@.take(i as int).push(target@[i as int]));
        i = i + 1;
    }
    assert(h@ =~= h@.take(32));
    assert(target@ =~= target@.take(32));
    true
}

// ------------------------------------------------------------ share target

/// Dropping the last `k` bytes divides by `256^k`.
proof fn lemma_be_value_drop(s: Seq<u8>, k: int)
    requires
        0 <= k <= s.len(),
    ensures
        be_value(s) / pow2((8 * k) as nat) == be_value(s.take(s.len() - k)),
{
    let n = s.len() - k;
    lemma_be_value_split(s, n);
    lemma_be_value_bound(s.skip(n));
    lemma_pow2_pos((8 * k) as nat);
    let p = pow2((8 * k) as nat) as int;
    let q = be_value(s.take(n)) as int;
    let r = be_value(s.skip(n)) as int;
    assert((8 * (s.len() - n)) as nat == (8 * k) as nat);
    assert(s.skip(n).len() == k);
    assert(be_value(s) == q * p + r);
    lemma_fundamental_div_mod_converse(be_value(s) as int, p, q, r);
}

/// One byte of a number shifted right by `8 * shb + sbit` bits, from the two
/// source bytes that reach into it.
proof fn lemma_shift_step(base: Seq<u8>, i: int, bits: nat, shb: int, sbit: int, b1: int, b0: int)
    requires
        0 <= i < base.len(),
        bits == 8 * shb + sbit,
        0 <= sbit < 8,
        0 <= shb,
        b0 == (if i - shb >= 0 { base[i - shb] as int } else { 0 }),
        b1 == (if i - shb - 1 >= 0 { base[i - shb - 1] as int } else { 0 }),
    ensures
        be_value(base.take(i + 1)) as int / pow2(bits) as int == (be_value(base.take(i)) as int / pow2(bits) as int)
            * 256 + ((b1 * 256 + b0) / pow2(sbit as nat) as int) % 256,
{
    let s = base.take(i + 1);
    let v = be_value(s) as int;
    let u = be_value(base.take(i)) as int;
    let p = pow2(bits) as int;
    assert(s.drop_last() =~= base.take(i));
    assert(v == u * 256 + s.last() as int);
    lemma_pow2_pos(bits);
    // the high bytes of the shifted number
    assert(v / p / 256 == u / p) by {
        assert(v / 256 == u);
        lemma_div_denominator(v, p, 256);
        lemma_div_denominator(v, 256, p);
        assert(p * 256 == 256 * p);
    }
    // its low byte
    let w = pow2((8 * shb) as nat) as int;
    let c = pow2(sbit as nat) as int;
    lemma_pow2_adds((8 * shb) as nat, sbit as nat);
    lemma_pow2_pos((8 * shb) as nat);
    lemma_pow2_pos(sbit as nat);
    lemma_div_denominator(v, w, c);
    assert((v / w / c) % 256 == ((b1 * 256 + b0) / c) % 256) by {
        let q = v / w;
        let r = if i - shb - 1 >= 0 { be_value(base.take(i - shb - 1)) as int } else { 0 };
        assert(q == r * 65536 + b1 * 256 + b0) by {
            if shb <= i + 1 {
                lemma_be_value_drop(s, shb);
                assert(s.take(s.len() - shb) =~= base.take(i + 1 - shb));
                if i - shb >= 0 {
                    let t = base.take(i + 1 - shb);
                    let t1 = base.take(i - shb);
                    assert(t.drop_last() =~= t1);
                    assert(t.last() == b0);
                    assert(be_value(t) == be_value(t1) * 256 + b0);
                    if i - shb - 1 >= 0 {
                        assert(t1.drop_last() =~= base.take(i - shb - 1));
                        assert(t1.last() == b1);
                        assert(be_value(t1) == r * 256 + b1);
                    } else {
                        assert(t1.len() == 0);
                        assert(be_value(t1) == 0);
                    }
                } else {
                    assert(base.take(i + 1 - shb).len() == 0);
                }
            } else {
                lemma_be_value_bound(s);
                lemma_pow2_strictly_increases((8 * (i + 1)) as nat, (8 * shb) as nat);
                assert(v < w);
                assert(v / w == 0) by {
                    lemma_fundamental_div_mod_converse(v, w, 0, v);
                }
            }
        }
        lemma_low_byte(r, b1, b0, sbit);
    }
}

proof fn lemma_low_byte(r: int, b1: int, b0: int, sbit: int)
    requires
        0 <= r,
        0 <= b1 < 256,
        0 <= b0 < 256,
        0 <= sbit < 8,
    ensures
        ((r * 65536 + b1 * 256 + b0) / pow2(sbit as nat) as int) % 256 == ((b1 * 256 + b0)
            / pow2(sbit as nat) as int) % 256,
{
    lemma2_to64();
    let x = b1 * 256 + b0;
    let c = pow2(sbit as nat) as int;
    let d = pow2((8 - sbit) as nat) as int;
    lemma_pow2_adds(sbit as nat, (8 - sbit) as nat);
    lemma_pow2_pos(sbit as nat);
    assert(c * d == 256);
    assert(r * 65536 == (r * d * 256) * c) by (nonlinear_arith)
        requires
            c * d == 256,
    ;
    lemma_hoist_over_denominator(x, r * d * 256, c as nat);
    lemma_mod_multiples_vanish(r * d, x / c, 256);
    assert(r * d * 256 == 256 * (r * d)) by (nonlinear_arith);
}

fn small_power(s: u32) -> (p: u16)
    requires
        s < 8,
    ensures
        p == pow2(s as nat),
        p > 0,
{
    proof {
        lemma2_to64();
    }
    match s {
        0 => 1,
        1 => 2,
        2 => 4,
        3 => 8,
        4 => 16,
        5 => 32,
        6 => 64,
        _ => 128,
    }
}

/// The bytes of the difficulty-1 target, `2^224 - 1`.
pub open spec fn diff1_bytes() -> Seq<u8> {
    Seq::new(32, |i: int| if i < 4 { 0u8 } else { 0xffu8 })
}

/// The difficulty-1 target as a number.
pub proof fn lemma_diff1_value()
    ensures
        be_value(diff1_bytes()) == pow2(224) - 1,
{
    lemma2_to64();
    assert forall|n: int| 4 <= n <= 32 implies #[trigger] be_value(diff1_bytes().take(n)) == pow2(
        (8 * (n - 4)) as nat,
    ) - 1 by {
        lemma_diff1_prefix(n);
    }
    assert(diff1_bytes().take(32) =~= diff1_bytes());
    assert(be_value(diff1_bytes().take(32)) == pow2((8 * (32 - 4)) as nat) - 1);
}

proof fn lemma_diff1_prefix(n: int)
    requires
        4 <= n <= 32,
    ensures
        be_value(diff1_bytes().take(n)) == pow2((8 * (n - 4)) as nat) - 1,
    decreases n,
{
    lemma2_to64();
    let s = diff1_bytes().take(n);
    if n == 4 {
        reveal_with_fuel(be_value, 5);
        assert(s.drop_last().drop_last().drop_last().drop_last().len() == 0);
    } else {
        lemma_diff1_prefix(n - 1);
        assert(s.drop_last() =~= diff1_bytes().take(n - 1));
        lemma_byte_power((n - 5) as nat);
        assert((8 * (n - 4)) as nat == 8 * ((n - 5) as nat + 1));
    }
}

/// The target of shares with `bits` more leading zero bits than difficulty 1
/// asks for: `2^224 - 1` shifted right by `bits`.
pub open spec fn share_target(bits: nat) -> nat {
    (pow2(224) - 1) as nat / pow2(bits)
}

/// The share target for `bits` extra leading zero bits, as bytes.
pub fn target_be(bits: u32) -> (out: [u8; 32])
    ensures
        be_value(out@) == share_target(bits as nat),
{
    let mut base: [u8; 32] = [0u8; 32];
    let mut k: usize = 4;
    while k < 32
        invariant
            4 <= k <= 32,
            base@.len() == 32,
            forall|j: int| 0 <= j < 32 ==> base@[j] == (if 4 <= j < k { 0xffu8 } else { 0u8 }),
        decreases 32 - k,
    {
        base[k] = 0xff;
        k = k + 1;
    }
    assert(base@ =~= diff1_bytes());
    let shb: usize = (bits / 8) as usize;
    let sbit: u32 = bits % 8;
    let p: u16 = small_power(sbit);
    let mut out: [u8; 32] = [0u8; 32];
    let mut i: usize = 0;
    proof {
        lemma_pow2_pos(bits as nat);
        lemma2_to64();
        assert(out@.take(0).len() == 0 && base@.take(0).len() == 0);
        assert(0int / pow2(bits as nat) as int == 0) by {
            lemma_fundamental_div_mod_converse(0, pow2(bits as nat) as int, 0, 0);
        }
    }
    while i < 32
        invariant
            i <= 32,
            base@.len() == 32,
            out@.len() == 32,
            bits as nat == 8 * (shb as int) + sbit as int,
            sbit < 8,
            p == pow2(sbit as nat),
            p > 0,
            be_value(out@.take(i as int)) as int == be_value(base@.take(i as int)) as int / pow2(bits as nat) as int,
        decreases 32 - i,
    {
        let b0: u16 = if i >= shb { base[i - shb] as u16 } else { 0 };
        let b1: u16 = if i > shb { base[i - shb - 1] as u16 } else { 0 };
        let wide: u16 = b1 * 256 + b0;
        let byte: u8 = ((wide / p) % 256) as u8;
        let ghost before = out@;
        out[i] = byte;
        proof {
            lemma_shift_step(base@, i as int, bits as nat, shb as int, sbit as int, b1 as int, b0 as int);
            assert(out@.take(i + 1).drop_last() =~= before.take(i as int));
            assert(out@.take(i + 1).last() == byte);
        }
        i = i + 1;
    }
    proof {
        assert(out@.take(32) =~= out@);
        assert(base@.take(32) =~= base@);
        lemma_diff1_value();
    }
    out
}

// ---------------------------------------------------------- network target

/// The exponent byte of a compact target.
pub open spec fn nbits_exponent(nbits: u32) -> nat {
    (nbits / 0x100_0000) as nat
}

/// The 23-bit mantissa of a compact target; the sign bit is left out.
pub open spec fn nbits_mantissa(nbits: u32) -> nat {
    (nbits % 0x80_0000) as nat
}

/// `mantissa * 256^(exponent - 3)`, rounded down, of which 256 bits are kept.
pub open spec fn nbits_value(nbits: u32) -> nat {
    (nbits_mantissa(nbits) * pow2(8 * nbits_exponent(nbits)) / pow2(24)) % pow2(256)
}

spec fn zeros(n: nat) -> Seq<u8> {
    Seq::new(n, |i: int| 0u8)
}

proof fn lemma_zeros_value(n: nat)
    ensures
        be_value(zeros(n)) == 0,
    decreases n,
{
    if n > 0 {
        lemma_zeros_value((n - 1) as nat);
        assert(zeros(n).drop_last() =~= zeros((n - 1) as nat));
    }
}

/// The mantissa's three bytes followed by zeros, cut after `e` bytes.
spec fn placed(m: Seq<u8>, e: nat) -> Seq<u8> {
    (m + zeros(e)).take(e as int)
}

proof fn lemma_placed_value(m: Seq<u8>, e: nat)
    requires
        m.len() == 3,
    ensures
        be_value(placed(m, e)) == be_value(m) * pow2(8 * e) / pow2(24),
{
    lemma2_to64();
    lemma_pow2_pos(24);
    let v = be_value(m) as int;
    let s = placed(m, e);
    if e <= 3 {
        let k = 3 - e;
        assert(s =~= m.take(m.len() - k));
        lemma_be_value_drop(m, k);
        let a = pow2((8 * k) as nat) as int;
        let b = pow2(8 * e) as int;
        lemma_pow2_adds((8 * k) as nat, 8 * e);
        lemma_pow2_pos((8 * k) as nat);
        lemma_pow2_pos(8 * e);
        assert(a * b == pow2(24));
        lemma_div_denominator(v * b, b, a);
        assert(v * b / b == v) by {
            lemma_fundamental_div_mod_converse(v * b, b, v, 0);
        }
        assert(b * a == a * b) by (nonlinear_arith);
    } else {
        lemma_be_value_split(s, 3);
        assert(s.take(3) =~= m);
        assert(s.skip(3) =~= zeros((e - 3) as nat));
        lemma_zeros_value((e - 3) as nat);
        let a = pow2((8 * (e - 3)) as nat) as int;
        lemma_pow2_adds((8 * (e - 3)) as nat, 24);
        assert(8 * (e - 3) + 24 == 8 * e);
        assert(v * (a * pow2(24) as int) == (v * a) * pow2(24) as int) by (nonlinear_arith);
        lemma_fundamental_div_mod_converse(v * pow2(8 * e) as int, pow2(24) as int, v * a, 0);
        assert((8 * (s.len() - 3)) as nat == (8 * (e - 3)) as nat);
    }
}

proof fn lemma_window_value(m: Seq<u8>, e: nat, t: Seq<u8>)
    requires
        m.len() == 3,
        t.len() == 32,
        forall|p: int| 0 <= p < 32 ==> t[p] == (if 0 <= p - (32 - e) < 3 { m[p - (32 - e)] } else { 0 }),
    ensures
        be_value(t) == be_value(placed(m, e)) % pow2(256),
{
    lemma_pow2_pos(256);
    let s = zeros(32) + placed(m, e);
    lemma_be_value_split(s, 32);
    assert(s.take(32) =~= zeros(32));
    assert(s.skip(32) =~= placed(m, e));
    lemma_zeros_value(32);
    assert(0 * pow2((8 * (s.len() - 32)) as nat) == 0) by (nonlinear_arith);
    assert(be_value(s) == be_value(placed(m, e)));
    lemma_be_value_split(s, e as int);
    assert(s.skip(e as int) =~= t);
    lemma_be_value_bound(t);
    let p = pow2(256) as int;
    assert((8 * (s.len() - e)) as nat == 256);
    lemma_fundamental_div_mod_converse(be_value(s) as int, p, be_value(s.take(e as int)) as int, be_value(t) as int);
}

/// The network block target that a job's compact `nbits` stands for.
pub fn nbits_to_target(nbits: u32) -> (t: [u8; 32])
    ensures
        be_value(t@) == nbits_value(nbits),
{
    let exp: usize = (nbits / 0x100_0000) as usize;
    let mant: u32 = nbits % 0x80_0000;
    let m: [u8; 3] = [(mant / 65536) as u8, (mant / 256 % 256) as u8, (mant % 256) as u8];
    let mut t: [u8; 32] = [0u8; 32];
    let mut i: usize = 0;
    while i < 3
        invariant
            i <= 3,
            exp < 256,
            t@.len() == 32,
            m@.len() == 3,
            forall|p: int|
                0 <= p < 32 ==> t@[p] == (if 0 <= p - (32 - exp) < i { m@[p - (32 - exp)] } else { 0 }),
        decreases 3 - i,
    {
        if exp <= 32 + i && 32 + i - exp < 32 {
            t[32 + i - exp] = m[i];
        }
        i = i + 1;
    }
    proof {
        lemma_window_value(m@, exp as nat, t@);
        lemma_placed_value(m@, exp as nat);
        reveal_with_fuel(be_value, 4);
        assert(m@.drop_last().drop_last().drop_last().len() == 0);
        assert(be_value(m@) == mant);
    }
    t
}

// ------------------------------------------------------------------- laws

/// Law: each extra bit halves the share target.
pub proof fn law_extra_bit_halves_target(bits: nat)
    ensures
        share_target(bits + 1) == share_target(bits) / 2,
{
    lemma2_to64();
    lemma_pow2_pos(224);
    lemma_pow2_pos(bits);
    lemma_pow2_adds(bits, 1);
    lemma_div_denominator(pow2(224) - 1, pow2(bits) as int, 2);
}

/// Law: a hash that meets a harder share target meets every easier one.
pub proof fn law_harder_share_meets_easier_target(h: Seq<u8>, hard: nat, easy: nat)
    requires
        easy <= hard,
        be_value(h) <= share_target(hard),
    ensures
        be_value(h) <= share_target(easy),
    decreases hard,
{
    if easy < hard {
        law_extra_bit_halves_target((hard - 1) as nat);
        law_harder_share_meets_easier_target(h, (hard - 1) as nat, easy);
    }
}

/// Law: filtering at the power of two below a difficulty loses no share. A
/// hash whose product with the difficulty stays within the difficulty-1
/// target meets the target that the grinders are given.
pub proof fn law_filter_keeps_every_share(h: Seq<u8>, diff: Double, bits: u32)
    requires
        !diff.nan(),
        diff.units() >= pow2(1074),
        pot_of(diff, bits),
        be_value(h) * diff.units() <= (pow2(224) - 1) * pow2(1074),
    ensures
        be_value(h) <= share_target(bits as nat),
{
    let one = pow2(1074) as int;
    let v = be_value(h) as int;
    let p = pow2(bits as nat) as int;
    let u = diff.units();
    let top = pow2(224) - 1;
    lemma_pow2_pos(1074);
    lemma_pow2_pos(224);
    lemma_pow2_pos(bits as nat);
    assert((v * p) * one <= v * u) by (nonlinear_arith)
        requires
            p * one <= u,
            0 <= v,
    ;
    assert(v * p <= top) by (nonlinear_arith)
        requires
            (v * p) * one <= top * one,
            one > 0,
    ;
    lemma_div_is_ordered(v * p, top, p);
    lemma_fundamental_div_mod_converse(v * p, p, v, 0);
}

// ------------------------------------------------------------ leading bits

/// How many extra zero bits a share difficulty asks for: the exponent of the
/// largest power of two that the difficulty reaches, at most 63; 0 where it
/// does not reach 1 (or is not a number).
pub open spec fn pot_of(diff: Double, bits: u32) -> bool {
    let one = pow2(1074) as int;
    if diff.nan() || diff.units() < one {
        bits == 0
    } else {
        &&& bits <= 63
        &&& pow2(bits as nat) * one <= diff.units()
        &&& bits < 63 ==> diff.units() < pow2(bits as nat + 1) * one
    }
}

/// The number of extra zero bits that a share difficulty asks for.
pub open spec fn pot(diff: Double) -> u32 {
    choose|bits: u32| pot_of(diff, bits)
}

/// There is only one such number.
pub proof fn lemma_pot_is_unique(diff: Double, a: u32, b: u32)
    requires
        pot_of(diff, a),
        pot_of(diff, b),
    ensures
        a == b,
{
    lemma_pow2_pos(1074);
    let one = pow2(1074) as int;
    if a < b {
        lemma_no_two_pots(diff, a, b);
    }
    if b < a {
        lemma_no_two_pots(diff, b, a);
    }
}

proof fn lemma_no_two_pots(diff: Double, a: u32, b: u32)
    requires
        a < b,
    ensures
        !(pot_of(diff, a) && pot_of(diff, b)),
{
    lemma_pow2_pos(1074);
    let one = pow2(1074) as int;
    if a + 1 < b {
        lemma_pow2_strictly_increases(a as nat + 1, b as nat);
    }
    assert(pow2(a as nat + 1) * one <= pow2(b as nat) * one) by (nonlinear_arith)
        requires
            pow2(a as nat + 1) <= pow2(b as nat),
            one > 0,
    ;
}

/// Law: a whole difficulty asks for as many extra zero bits as the power of two
/// below it has.
pub proof fn law_whole_difficulty_asks_for_its_bits(n: u64)
    requires
        1 <= n <= EXACT,
    ensures
        ({
            let bits = pot(whole(n as int));
            pow2(bits as nat) <= n < pow2(bits as nat + 1)
        }),
{
    let d = whole(n as int);
    let one = pow2(1074) as int;
    lemma_whole_is_there(n as int);
    lemma_pow2_pos(1074);
    lemma2_to64_rest();
    let k = lemma_leading_bit(n as nat);
    if k > 53 {
        lemma_pow2_strictly_increases(53, k);
    }
    let (p, q) = (pow2(k) as int, pow2(k + 1) as int);
    assert(one <= n * one && p * one <= n * one && n * one < q * one) by (nonlinear_arith)
        requires
            1 <= n,
            p <= n < q,
            one > 0,
    ;
    assert(pot_of(d, k as u32));
    lemma_pot_is_unique(d, k as u32, pot(d));
}

/// The largest power of two that a share difficulty reaches, as the number of
/// extra leading zero bits that the grinders look for.
pub fn floor_pot(diff: Double) -> (bits: u32)
    ensures
        pot_of(diff, bits),
        bits == pot(diff),
        bits <= 63,
        diff.nan() || diff.units() < pow2(1074) ==> bits == 0,
        !diff.nan() && diff.units() >= pow2(1074) ==> pow2(bits as nat) * pow2(1074) <= diff.units(),
        !diff.nan() && diff.units() >= pow2(1074) && bits < 63 ==> diff.units() < pow2(bits as nat + 1) * pow2(1074),
{
    let bits: u32 = leading_pot(diff);
    proof {
        lemma_pot_is_unique(diff, bits, pot(diff));
    }
    bits
}

/// Reads the power of two off the exponent's bits.
fn leading_pot(diff: Double) -> (bits: u32)
    ensures
        pot_of(diff, bits),
{
    let top: u64 = 0x7ff0_0000_0000_0000;
    proof {
        lemma2_to64();
        lemma_pow2_pos(1074);
    }
    if diff.bits >= 0x8000_0000_0000_0000 || diff.bits > top {
        return 0;
    }
    let exponent: u64 = diff.bits / 0x10_0000_0000_0000;
    proof {
        lemma_double_range(diff.bits as int);
        if exponent < 1023 {
            if exponent == 0 {
                lemma_pow2_strictly_increases(52, 1074);
            } else {
                if exponent + 52 < 1074 {
                    lemma_pow2_strictly_increases((exponent + 52) as nat, 1074);
                }
            }
        }
    }
    if exponent < 1023 {
        return 0;
    }
    let e: u64 = exponent - 1023;
    let bits: u32 = if e > 63 { 63 } else { e as u32 };
    proof {
        lemma_pow2_adds(bits as nat, 1074);
        lemma_pow2_adds(bits as nat + 1, 1074);
        if e > 63 {
            lemma_pow2_strictly_increases((63 + 1074) as nat, (exponent + 51) as nat);
        }
        lemma_pow2_strictly_increases(0, (exponent + 51) as nat);
        if exponent + 51 > 1074 {
            lemma_pow2_strictly_increases(1074, (exponent + 51) as nat);
        }
    }
    bits
}

/// A normal double lies between two neighbouring powers of two.
proof fn lemma_double_range(magnitude: int)
    requires
        0 <= magnitude,
    ensures
        ({
            let e = magnitude / 0x10_0000_0000_0000;
            &&& e == 0 ==> units_of(magnitude) < pow2(52)
            &&& e > 0 ==> pow2((e + 51) as nat) <= units_of(magnitude) < pow2((e + 52) as nat)
        }),
{
    lemma2_to64();
    lemma2_to64_rest();
    let e = magnitude / 0x10_0000_0000_0000;
    let f = magnitude % 0x10_0000_0000_0000;
    if e > 0 {
        let p = pow2((e - 1) as nat) as int;
        lemma_pow2_pos((e - 1) as nat);
        lemma_pow2_adds(52, (e - 1) as nat);
        lemma_pow2_adds(53, (e - 1) as nat);
        assert(0x10_0000_0000_0000 * p <= (0x10_0000_0000_0000 + f) * p < 0x20_0000_0000_0000 * p)
            by (nonlinear_arith)
            requires
                0 <= f < 0x10_0000_0000_0000,
                p > 0,
        ;
    }
}

/// The leading 128 bits of a hash. The difficulty of a hash is the
/// difficulty-1 target over the hash, and these bits settle it to within
/// rounding: it is `2^96` over their value.
pub fn hash_top(h: &[u8; 32]) -> (top: u128)
    ensures
        top == be_value(h@.take(16)),
{
    let mut top: u128 = 0;
    let mut i: usize = 0;
    assert(h@.take(0).len() == 0);
    while i < 16
        invariant
            i <= 16,
            top == be_value(h@.take(i as int)),
        decreases 16 - i,
    {
        proof {
            lemma_be_value_bound(h@.take(i as int));
            lemma2_to64();
            lemma_pow2_adds(64, 56);
            lemma2_to64_rest();
            if i < 15 {
                lemma_pow2_strictly_increases((8 * i) as nat, 120);
            }
            assert(h@.take(i + 1).drop_last() =~= h@.take(i as int));
        }
        top = top * 256 + h[i] as u128;
        i = i + 1;
    }
    top
}

// ------------------------------------------------------------- number laws

/// Law: bytes count in base 256, the first ones most.
pub proof fn law_bytes_count_in_order(a: Seq<u8>, b: Seq<u8>, x: u8)
    ensures
        be_value(Seq::empty()) == 0,
        be_value(seq![x]) == x,
        be_value(a + b) == be_value(a) * pow2(8 * b.len()) + be_value(b),
        be_value(a) < pow2(8 * a.len()),
{
    assert(seq![x].drop_last() =~= Seq::<u8>::empty());
    let s = a + b;
    lemma_be_value_split(s, a.len() as int);
    assert(s.take(a.len() as int) =~= a);
    assert(s.skip(a.len() as int) =~= b);
    assert((8 * (s.len() - a.len())) as nat == 8 * b.len());
    lemma_be_value_bound(a);
}

/// Law: the share target of `bits` extra bits is the difficulty-1 target
/// divided by `2^bits`, rounded down.
pub proof fn law_share_target_is_the_quotient(bits: nat)
    ensures
        share_target(bits) * pow2(bits) <= pow2(224) - 1,
        pow2(224) - 1 < (share_target(bits) + 1) * pow2(bits),
        share_target(0) == pow2(224) - 1,
{
    lemma2_to64();
    lemma_pow2_pos(224);
    lemma_pow2_pos(bits);
    let top = (pow2(224) - 1) as int;
    let p = pow2(bits) as int;
    let q = share_target(bits) as int;
    assert(q * p <= top && top < (q + 1) * p) by (nonlinear_arith)
        requires
            q == top / p,
            p > 0,
            top >= 0,
    ;
    assert(top / 1 == top);
}

/// Law: a compact target stands for its 23-bit mantissa, moved by whole bytes
/// so that an exponent of 3 leaves it as it is. Bytes that fall off either end
/// are lost.
pub proof fn law_compact_target_is_a_moved_mantissa(nbits: u32)
    ensures
        ({
            let e = nbits as int / 0x100_0000;
            let m = nbits as int % 0x80_0000;
            &&& e < 3 ==> nbits_value(nbits) == m / pow2((8 * (3 - e)) as nat) as int
            &&& 3 <= e <= 32 ==> nbits_value(nbits) == m * pow2((8 * (e - 3)) as nat)
            &&& e > 32 ==> nbits_value(nbits) == (m * pow2((8 * (e - 3)) as nat)) % pow2(256) as int
        }),
{
    let e = nbits as int / 0x100_0000;
    let m = nbits as int % 0x80_0000;
    lemma2_to64();
    lemma2_to64_rest();
    lemma_pow2_pos(256);
    let b = pow2((8 * e) as nat) as int;
    if e < 3 {
        let k = (8 * (3 - e)) as nat;
        let a = pow2(k) as int;
        lemma_pow2_adds((8 * e) as nat, k);
        lemma_pow2_pos((8 * e) as nat);
        lemma_pow2_pos(k);
        lemma_div_denominator(m * b, b, a);
        lemma_fundamental_div_mod_converse(m * b, b, m, 0);
        let v = m / a;
        assert(0 <= v <= m) by (nonlinear_arith)
            requires
                v == m / a,
                a > 0,
                m >= 0,
        ;
        lemma_pow2_strictly_increases(23, 256);
        lemma_fundamental_div_mod_converse(v, pow2(256) as int, 0, v);
    } else {
        let k = (8 * (e - 3)) as nat;
        let a = pow2(k) as int;
        lemma_pow2_adds(k, 24);
        assert(8 * (e - 3) + 24 == 8 * e);
        assert(m * (a * pow2(24) as int) == (m * a) * pow2(24) as int) by (nonlinear_arith);
        lemma_fundamental_div_mod_converse(m * b, pow2(24) as int, m * a, 0);
        if e <= 32 {
            lemma_pow2_adds(23, k);
            lemma_pow2_pos(k);
            assert(m * a < pow2(23) as int * a) by (nonlinear_arith)
                requires
                    0 <= m < pow2(23) as int,
                    a > 0,
            ;
            assert(m * a >= 0) by (nonlinear_arith)
                requires
                    0 <= m,
                    a > 0,
            ;
            lemma_pow2_strictly_increases((23 + k) as nat, 256);
            lemma_fundamental_div_mod_converse(m * a, pow2(256) as int, 0, m * a);
        }
    }
}

} // verus!
