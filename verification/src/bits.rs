//! The INTERCAL bit operators on 16- and 32-bit words: MINGLE, SELECT and
//! the unary AND, OR and XOR, together with the overflow check that guards
//! 16-bit operands.

use vstd::prelude::*;
use crate::err::{plain, ErrCode, Error, Res};

verus! {

/// The word `v` rotated right by one place within 16 bits.
pub open spec fn rotr1_16(v: u16) -> u16 {
    (v >> 1) | ((v & 1) << 15)
}

/// The word `v` rotated right by one place within 32 bits.
pub open spec fn rotr1_32(v: u32) -> u32 {
    (v >> 1) | ((v & 1) << 31)
}

/// Unary AND at 16 bits: the word combined with itself rotated right by
/// one place.
pub open spec fn and_16_spec(v: u16) -> u16 {
    rotr1_16(v) & v
}

/// Unary OR at 16 bits: the word combined with itself rotated right by
/// one place.
pub open spec fn or_16_spec(v: u16) -> u16 {
    rotr1_16(v) | v
}

/// Unary XOR at 16 bits: the word combined with itself rotated right by
/// one place.
pub open spec fn xor_16_spec(v: u16) -> u16 {
    rotr1_16(v) ^ v
}

/// Unary AND at 32 bits: the word combined with itself rotated right by
/// one place.
pub open spec fn and_32_spec(v: u32) -> u32 {
    rotr1_32(v) & v
}

/// Unary OR at 32 bits: the word combined with itself rotated right by
/// one place.
pub open spec fn or_32_spec(v: u32) -> u32 {
    rotr1_32(v) | v
}

/// Unary XOR at 32 bits: the word combined with itself rotated right by
/// one place.
pub open spec fn xor_32_spec(v: u32) -> u32 {
    rotr1_32(v) ^ v
}

proof fn lemma_rotate_16(v: u16)
    by (bit_vector)
    ensures
        v & 1 == 1 ==> ((v >> 1) | 0x8000) == rotr1_16(v),
        v & 1 != 1 ==> (v >> 1) == rotr1_16(v),
{
}

proof fn lemma_rotate_32(v: u32)
    by (bit_vector)
    ensures
        v & 1 == 1 ==> ((v >> 1) | 0x8000_0000) == rotr1_32(v),
        v & 1 != 1 ==> (v >> 1) == rotr1_32(v),
{
}

fn rotate_16(v: u16) -> (w: u16)
    ensures
        w == rotr1_16(v),
{
    let mut w: u16 = v >> 1;
    if v & 1 == 1 {
        w |= 0x8000;
    }
    proof {
        lemma_rotate_16(v);
    }
    w
}

fn rotate_32(v: u32) -> (w: u32)
    ensures
        w == rotr1_32(v),
{
    let mut w: u32 = v >> 1;
    if v & 1 == 1 {
        w |= 0x8000_0000;
    }
    proof {
        lemma_rotate_32(v);
    }
    w
}

/// Unary AND at 16 bits: `v` combined with itself rotated right by one.
pub fn and_16(v: u16) -> (r: u16)
    ensures
        r == and_16_spec(v),
{
    rotate_16(v) & v
}

/// Unary AND at 32 bits.
pub fn and_32(v: u32) -> (r: u32)
    ensures
        r == and_32_spec(v),
{
    rotate_32(v) & v
}

/// Unary OR at 16 bits.
pub fn or_16(v: u16) -> (r: u16)
    ensures
        r == or_16_spec(v),
{
    rotate_16(v) | v
}

/// Unary OR at 32 bits.
pub fn or_32(v: u32) -> (r: u32)
    ensures
        r == or_32_spec(v),
{
    rotate_32(v) | v
}

/// Unary XOR at 16 bits.
pub fn xor_16(v: u16) -> (r: u16)
    ensures
        r == xor_16_spec(v),
{
    rotate_16(v) ^ v
}

/// Unary XOR at 32 bits.
pub fn xor_32(v: u32) -> (r: u32)
    ensures
        r == xor_32_spec(v),
{
    rotate_32(v) ^ v
}

/// The unary operators are the AND, OR and XOR of one rotated word with
/// the word itself: every bit of the AND is a bit of the OR, and the bits in
/// which the two differ are the XOR.
pub proof fn lemma_unary_identity_16(v: u16)
    by (bit_vector)
    ensures
        and_16_spec(v) & !or_16_spec(v) == 0,
        and_16_spec(v) ^ or_16_spec(v) == xor_16_spec(v),
{
}

/// The 32-bit form of [`lemma_unary_identity_16`].
pub proof fn lemma_unary_identity_32(v: u32)
    by (bit_vector)
    ensures
        and_32_spec(v) & !or_32_spec(v) == 0,
        and_32_spec(v) ^ or_32_spec(v) == xor_32_spec(v),
{
}

/// The interleaving of the low `n` bits of `v` and `w`: bit `2k` of the
/// result is bit `k` of `w`, bit `2k + 1` is bit `k` of `v`.
pub open spec fn mingle_bits(v: u32, w: u32, n: nat) -> u32
    decreases n,
{
    if n == 0 {
        0
    } else {
        (mingle_bits(v >> 1, w >> 1, (n - 1) as nat) << 2) | ((v & 1) << 1) | (w & 1)
    }
}

/// MINGLE of two 16-bit operands.
pub open spec fn mingle_spec(v: u32, w: u32) -> u32 {
    mingle_bits(v, w, 16)
}

/// The 16 low bits of `x`, each moved from place `k` to place `2k`.
pub open spec fn spread(x: u32) -> u32 {
    let a = ((x & 0x0000_ff00) << 8) | (x & 0x0000_00ff);
    let b = ((a & 0x00f0_00f0) << 4) | (a & 0x000f_000f);
    let c = ((b & 0x0c0c_0c0c) << 2) | (b & 0x0303_0303);
    ((c & 0x2222_2222) << 1) | (c & 0x1111_1111)
}

/// The word whose `n` low bits are set, for `n` up to 32.
pub open spec fn low_ones(n: u32) -> u32 {
    !(0xffff_ffffu32 << n)
}

proof fn lemma_mingle_step(v: u32, w: u32, k: u32, inner: u32)
    by (bit_vector)
    requires
        k < 16,
        inner == (spread((v >> 1) & low_ones(k)) << 1) | spread((w >> 1) & low_ones(k)),
    ensures
        (inner << 2) | ((v & 1) << 1) | (w & 1) == (spread(v & low_ones((k + 1) as u32)) << 1)
            | spread(w & low_ones((k + 1) as u32)),
{
}

proof fn lemma_mingle_base(v: u32, w: u32)
    by (bit_vector)
    ensures
        (spread(v & low_ones(0)) << 1) | spread(w & low_ones(0)) == 0,
        v <= 0xffff ==> v & low_ones(16) == v,
        w <= 0xffff ==> w & low_ones(16) == w,
{
}

proof fn lemma_mingle_bits_closed(v: u32, w: u32, n: nat)
    requires
        n <= 16,
    ensures
        mingle_bits(v, w, n) == (spread(v & low_ones(n as u32)) << 1) | spread(
            w & low_ones(n as u32),
        ),
    decreases n,
{
    if n == 0 {
        lemma_mingle_base(v, w);
    } else {
        lemma_mingle_bits_closed(v >> 1, w >> 1, (n - 1) as nat);
        lemma_mingle_step(v, w, (n - 1) as u32, mingle_bits(v >> 1, w >> 1, (n - 1) as nat));
    }
}

/// MINGLE of two 16-bit operands in closed form: the operands spread out
/// over the odd and the even places.
pub proof fn lemma_mingle_closed(v: u32, w: u32)
    requires
        v <= 0xffff,
        w <= 0xffff,
    ensures
        mingle_spec(v, w) == (spread(v) << 1) | spread(w),
{
    lemma_mingle_bits_closed(v, w, 16);
    lemma_mingle_base(v, w);
}

/// MINGLE: interleaves two 16-bit operands into a 32-bit word. An operand
/// that does not fit in 16 bits is rejected.
pub fn mingle(v: u32, w: u32) -> (r: Res<u32>)
    ensures
        match r {
            Ok(m) => v <= 0xffff && w <= 0xffff && m == mingle_spec(v, w),
            Err(e) => (v > 0xffff || w > 0xffff) && e@ == plain(ErrCode::IE533),
        },
{
    if v > 0xffff || w > 0xffff {
        return Err(Error::new(ErrCode::IE533));
    }
    let a: u32 = ((v & 0x0000_ff00) << 8) | (v & 0x0000_00ff);
    let b: u32 = ((a & 0x00f0_00f0) << 4) | (a & 0x000f_000f);
    let c: u32 = ((b & 0x0c0c_0c0c) << 2) | (b & 0x0303_0303);
    let d: u32 = ((c & 0x2222_2222) << 1) | (c & 0x1111_1111);
    let e: u32 = ((w & 0x0000_ff00) << 8) | (w & 0x0000_00ff);
    let f: u32 = ((e & 0x00f0_00f0) << 4) | (e & 0x000f_000f);
    let g: u32 = ((f & 0x0c0c_0c0c) << 2) | (f & 0x0303_0303);
    let h: u32 = ((g & 0x2222_2222) << 1) | (g & 0x1111_1111);
    proof {
        lemma_mingle_closed(v, w);
    }
    Ok((d << 1) | h)
}

/// SELECT: the bits of `v` at the places where `w` has a one, packed at the
/// low end in their order.
pub open spec fn select_spec(v: u32, w: u32) -> u32
    decreases w,
{
    if w == 0 {
        0
    } else if w & 1 == 1 {
        proof {
            lemma_halves(w);
        }
        (v & 1) | (select_spec(v >> 1, w >> 1) << 1)
    } else {
        proof {
            lemma_halves(w);
        }
        select_spec(v >> 1, w >> 1)
    }
}

/// Shifting a word that is not zero to the right makes it smaller.
pub proof fn lemma_halves(w: u32)
    by (bit_vector)
    ensures
        w > 0 ==> (w >> 1) < w,
{
}

proof fn lemma_select_step(t: u32, v: u32, w: u32, inner: u32, k: u32, n: u32)
    by (bit_vector)
    requires
        k <= n,
        n < 32,
        w <= (0xffff_ffffu32 >> n),
    ensures
        (w >> 1) < w || w == 0,
        n < 31 ==> (w >> 1) <= (0xffff_ffffu32 >> ((n + 1) as u32)),
        n == 31 ==> (w >> 1) == 0,
        (t | ((v & 1) << k)) | (inner << ((k + 1) as u32)) == t | (((v & 1) | (inner << 1)) << k),
        t | (0u32 << k) == t,
        (t | ((v & 1) << k)) | (0u32 << ((k + 1) as u32)) == t | ((v & 1) << k),
{
}

/// SELECT. Total: every pair of words has a result.
pub fn select(v: u32, w: u32) -> (r: u32)
    ensures
        r == select_spec(v, w),
{
    let mut rest_v: u32 = v;
    let mut rest_w: u32 = w;
    let mut t: u32 = 0;
    let mut k: u32 = 0;
    let ghost mut n: u32 = 0;
    proof {
        lemma_select_start(select_spec(v, w), w);
    }
    while rest_w > 0
        invariant
            k <= n <= 32,
            n < 32 ==> rest_w <= (0xffff_ffffu32 >> n),
            n == 32 ==> rest_w == 0,
            rest_w > 0 ==> t | (select_spec(rest_v, rest_w) << k) == select_spec(v, w),
            rest_w == 0 ==> t == select_spec(v, w),
        decreases rest_w,
    {
        let ghost inner = select_spec(rest_v >> 1, rest_w >> 1);
        proof {
            lemma_select_step(t, rest_v, rest_w, inner, k, n);
            if rest_w >> 1 == 0 {
                assert(inner == 0);
            }
        }
        if rest_w & 1 == 1 {
            t |= (rest_v & 1) << k;
            k += 1;
        }
        rest_w >>= 1;
        rest_v >>= 1;
        proof {
            n = (n + 1) as u32;
        }
    }
    t
}

proof fn lemma_select_start(s: u32, w: u32)
    by (bit_vector)
    ensures
        0u32 | (s << 0u32) == s,
        w <= (0xffff_ffffu32 >> 0u32),
{
}

/// Guards a 16-bit operand: passes `v` through when it fits in 16 bits.
pub fn check_ovf(v: u32) -> (r: Res<u32>)
    ensures
        match r {
            Ok(x) => v <= 0xffff && x == v,
            Err(e) => v > 0xffff && e@ == plain(ErrCode::IE275),
        },
{
    if v > 0xffff {
        Err(Error::new(ErrCode::IE275))
    } else {
        Ok(v)
    }
}

} // verus!
