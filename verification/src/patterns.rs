//! The identities between INTERCAL operators and host arithmetic that the
//! expression pass relies on.

use vstd::prelude::*;
use crate::bitlaws::{lemma_select_evens, lemma_select_odds, squeeze};
use crate::bits::{
    and_32_spec, lemma_halves, lemma_mingle_closed, low_ones, mingle_spec, or_32_spec,
    select_spec, spread, xor_32_spec,
};

verus! {

proof fn lemma_unary_closed(x: u32, y: u32)
    by (bit_vector)
    requires
        x <= 0xffff,
        y <= 0xffff,
    ensures
        squeeze(and_32_spec((spread(x) << 1) | spread(y))) == x & y,
        squeeze(or_32_spec((spread(x) << 1) | spread(y))) == x | y,
        squeeze(xor_32_spec((spread(x) << 1) | spread(y))) == x ^ y,
        and_32_spec((spread(x) << 1) | spread(y)) & 1 == (x & 1) & (y & 1),
        or_32_spec((spread(x) << 1) | spread(y)) & 1 == (x & 1) | (y & 1),
        xor_32_spec((spread(x) << 1) | spread(y)) & 1 == (x & 1) ^ (y & 1),
{
}

/// A unary operator over a MINGLE, read at the even places, is the host
/// operator on the operands of the MINGLE.
pub proof fn lemma_unary_of_mingle(x: u32, y: u32)
    requires
        x <= 0xffff,
        y <= 0xffff,
    ensures
        select_spec(and_32_spec(mingle_spec(x, y)), 0x5555_5555) == x & y,
        select_spec(or_32_spec(mingle_spec(x, y)), 0x5555_5555) == x | y,
        select_spec(xor_32_spec(mingle_spec(x, y)), 0x5555_5555) == x ^ y,
        and_32_spec(mingle_spec(x, y)) & 1 == (x & 1) & (y & 1),
        or_32_spec(mingle_spec(x, y)) & 1 == (x & 1) | (y & 1),
        xor_32_spec(mingle_spec(x, y)) & 1 == (x & 1) ^ (y & 1),
{
    let m = mingle_spec(x, y);
    lemma_mingle_closed(x, y);
    lemma_unary_closed(x, y);
    lemma_select_evens(and_32_spec(m));
    lemma_select_evens(or_32_spec(m));
    lemma_select_evens(xor_32_spec(m));
}

proof fn lemma_ones_step(x: u32, len: u32, inner: u32)
    by (bit_vector)
    requires
        1 <= len <= 32,
        inner == (x >> 1) & low_ones((len - 1) as u32),
    ensures
        low_ones(len) != 0,
        low_ones(len) & 1 == 1,
        low_ones(len) >> 1 == low_ones((len - 1) as u32),
        (x & 1) | (inner << 1) == x & low_ones(len),
        low_ones(0) == 0,
        x & 0 == 0,
{
}

/// SELECT by a mask of low ones is a host AND with the mask.
pub proof fn lemma_select_ones(x: u32, len: u32)
    requires
        len <= 32,
    ensures
        select_spec(x, low_ones(len)) == x & low_ones(len),
    decreases len,
{
    if len == 0 {
        lemma_ones_step(x, 1, (x >> 1) & low_ones(0));
    } else {
        lemma_select_ones(x >> 1, (len - 1) as u32);
        let inner = select_spec(x >> 1, low_ones((len - 1) as u32));
        lemma_ones_step(x, len, inner);
    }
}

proof fn lemma_run_step(x: u32, len: u32, tz: u32)
    by (bit_vector)
    requires
        1 <= len,
        1 <= tz,
        len + tz <= 32,
    ensures
        (low_ones(len) << tz) != 0,
        (low_ones(len) << tz) & 1 != 1,
        (low_ones(len) << tz) >> 1 == low_ones(len) << ((tz - 1) as u32),
        (x >> 1) >> ((tz - 1) as u32) == x >> tz,
{
}

proof fn lemma_run_base(x: u32, len: u32)
    by (bit_vector)
    requires
        len <= 32,
    ensures
        low_ones(len) << 0u32 == low_ones(len),
        x >> 0u32 == x,
{
}

/// SELECT by a mask whose ones form one run is a shift and a host AND.
pub proof fn lemma_select_run(x: u32, len: u32, tz: u32)
    requires
        1 <= len,
        len + tz <= 32,
    ensures
        select_spec(x, low_ones(len) << tz) == (x >> tz) & low_ones(len),
    decreases tz,
{
    if tz == 0 {
        lemma_run_base(x, len);
        lemma_select_ones(x, len);
    } else {
        lemma_run_step(x, len, tz);
        lemma_select_run(x >> 1, len, (tz - 1) as u32);
    }
}

proof fn lemma_run_ends(x: u32, len: u32, tz: u32)
    by (bit_vector)
    requires
        1 <= len,
        len + tz <= 32,
    ensures
        tz == 0 ==> (x >> tz) & low_ones(len) == x & (low_ones(len) << tz),
        len + tz == 32 ==> (x >> tz) & low_ones(len) == x >> tz,
{
}

/// The two ends of the run: a run that starts at the lowest place selects
/// as a host AND with the mask itself, and a run that ends at the highest
/// place as a shift alone.
pub proof fn lemma_select_run_ends(x: u32, len: u32, tz: u32)
    requires
        1 <= len,
        len + tz <= 32,
    ensures
        tz == 0 ==> select_spec(x, low_ones(len) << tz) == x & (low_ones(len) << tz),
        len + tz == 32 ==> select_spec(x, low_ones(len) << tz) == x >> tz,
{
    lemma_select_run(x, len, tz);
    lemma_run_ends(x, len, tz);
}

proof fn lemma_odd_run_closed(x: u32, v: u32)
    by (bit_vector)
    requires
        x <= 0xffff,
        v == spread(x) << 1,
    ensures
        0x2aaa_aaabu32 != 0,
        0x2aaa_aaabu32 & 1 == 1,
        0x2aaa_aaabu32 >> 1 == 0x1555_5555u32,
        (v & 1) | (squeeze((v >> 1) & 0x1555_5555) << 1) == (x << 1) & 0xffff,
        spread(0) == 0,
        v | 0 == v,
{
}

/// SELECT by the mask `0x2AAAAAAB` of a MINGLE with zero is the left
/// operand shifted by one place, within 16 bits.
pub proof fn lemma_select_shifted(x: u32)
    requires
        x <= 0xffff,
    ensures
        select_spec(mingle_spec(x, 0), 0x2aaa_aaab) == (x << 1) & 0xffff,
{
    let m = mingle_spec(x, 0);
    lemma_mingle_closed(x, 0);
    lemma_odd_run_closed(x, spread(x) << 1);
    crate::bitlaws::lemma_select_even_mask(m >> 1, 15);
    reveal_with_fuel(select_spec, 2);
}

proof fn lemma_halves_closed(x: u32, y: u32)
    by (bit_vector)
    ensures
        squeeze(x) <= 0xffff,
        (squeeze(x >> 1) & squeeze(y >> 1)) <= 0xffff,
        (squeeze(x >> 1) | squeeze(y >> 1)) <= 0xffff,
        (squeeze(x >> 1) ^ squeeze(y >> 1)) <= 0xffff,
        (squeeze(x) & squeeze(y)) <= 0xffff,
        (squeeze(x) | squeeze(y)) <= 0xffff,
        (squeeze(x) ^ squeeze(y)) <= 0xffff,
        (spread(squeeze(x >> 1) & squeeze(y >> 1)) << 1) | spread(squeeze(x) & squeeze(y)) == x
            & y,
        (spread(squeeze(x >> 1) | squeeze(y >> 1)) << 1) | spread(squeeze(x) | squeeze(y)) == x
            | y,
        (spread(squeeze(x >> 1) ^ squeeze(y >> 1)) << 1) | spread(squeeze(x) ^ squeeze(y)) == x
            ^ y,
{
}

/// A host operator carried out on the odd and on the even places of its
/// operands, the two results mingled, is the operator on the operands.
pub proof fn lemma_mingle_halves(x: u32, y: u32)
    ensures
        select_spec(x, 0xaaaa_aaaa) <= 0xffff,
        select_spec(x, 0x5555_5555) <= 0xffff,
        (select_spec(x, 0xaaaa_aaaa) & select_spec(y, 0xaaaa_aaaa)) <= 0xffff,
        (select_spec(x, 0xaaaa_aaaa) | select_spec(y, 0xaaaa_aaaa)) <= 0xffff,
        (select_spec(x, 0xaaaa_aaaa) ^ select_spec(y, 0xaaaa_aaaa)) <= 0xffff,
        (select_spec(x, 0x5555_5555) & select_spec(y, 0x5555_5555)) <= 0xffff,
        (select_spec(x, 0x5555_5555) | select_spec(y, 0x5555_5555)) <= 0xffff,
        (select_spec(x, 0x5555_5555) ^ select_spec(y, 0x5555_5555)) <= 0xffff,
        mingle_spec(
            select_spec(x, 0xaaaa_aaaa) & select_spec(y, 0xaaaa_aaaa),
            select_spec(x, 0x5555_5555) & select_spec(y, 0x5555_5555),
        ) == x & y,
        mingle_spec(
            select_spec(x, 0xaaaa_aaaa) | select_spec(y, 0xaaaa_aaaa),
            select_spec(x, 0x5555_5555) | select_spec(y, 0x5555_5555),
        ) == x | y,
        mingle_spec(
            select_spec(x, 0xaaaa_aaaa) ^ select_spec(y, 0xaaaa_aaaa),
            select_spec(x, 0x5555_5555) ^ select_spec(y, 0x5555_5555),
        ) == x ^ y,
{
    lemma_select_odds(x);
    lemma_select_odds(y);
    lemma_select_evens(x);
    lemma_select_evens(y);
    lemma_halves_closed(x, y);
    lemma_halves_closed(x >> 1, y >> 1);
    let xo = squeeze(x >> 1);
    let yo = squeeze(y >> 1);
    let xe = squeeze(x);
    let ye = squeeze(y);
    lemma_mingle_closed(xo & yo, xe & ye);
    lemma_mingle_closed(xo | yo, xe | ye);
    lemma_mingle_closed(xo ^ yo, xe ^ ye);
}

proof fn lemma_small_closed(v: u32, w: u32, x: u32)
    by (bit_vector)
    requires
        v <= 1,
        w <= 1,
        x <= 0xffff,
    ensures
        (spread(v) << 1) | spread(w) == (v << 1) | w,
        w & 1 == w,
        xor_32_spec((spread(x) << 1) | spread(1)) & 3 == 1 + (x & 1),
        xor_32_spec((spread(x) << 1) | spread(2)) & 3 == 2 - (x & 1),
        (x & 1) <= 1,
{
}

/// A MINGLE of two truth values is the left one shifted by one place, with
/// the right one beside it.
pub proof fn lemma_mingle_small(v: u32, w: u32)
    requires
        v <= 1,
        w <= 1,
    ensures
        mingle_spec(v, w) == (v << 1) | w,
        w & 1 == w,
{
    lemma_mingle_closed(v, w);
    lemma_small_closed(v, w, 0);
}

/// The two low bits of the unary XOR of a MINGLE with one and with two
/// count the low bit of the left operand up from one and down from two.
pub proof fn lemma_xor_of_mingle(x: u32)
    requires
        x <= 0xffff,
    ensures
        xor_32_spec(mingle_spec(x, 1)) & 3 == 1 + (x & 1),
        xor_32_spec(mingle_spec(x, 2)) & 3 == 2 - (x & 1),
        (x & 1) <= 1,
{
    lemma_mingle_closed(x, 1);
    lemma_mingle_closed(x, 2);
    lemma_small_closed(0, 0, x);
}

proof fn lemma_self_step(v: u32, w: u32, inner: u32)
    by (bit_vector)
    requires
        w != 0,
        v & w == w,
    ensures
        w & 1 == 1 ==> ((v & 1) | (inner << 1)) & 1 == 1,
        w & 1 != 1 ==> (w >> 1) != 0 && (v >> 1) & (w >> 1) == (w >> 1),
{
}

proof fn lemma_select_covered(v: u32, w: u32)
    requires
        w != 0,
        v & w == w,
    ensures
        select_spec(v, w) & 1 == 1,
    decreases w,
{
    lemma_self_step(v, w, select_spec(v >> 1, w >> 1));
    if w & 1 != 1 {
        lemma_halves(w);
        lemma_select_covered(v >> 1, w >> 1);
    }
}

/// The low bit of the SELECT of a word by itself tells whether the word
/// is zero.
pub proof fn lemma_select_self(x: u32)
    ensures
        select_spec(x, x) & 1 == if x != 0 {
            1u32
        } else {
            0u32
        },
{
    if x != 0 {
        assert(x & x == x) by (bit_vector);
        lemma_select_covered(x, x);
    } else {
        assert(0u32 & 1 == 0) by (bit_vector);
    }
}

/// What the host operators make of the masks that change nothing.
pub proof fn lemma_host_identities(x: u32, y: u32)
    by (bit_vector)
    ensures
        x & 0xffff_ffff == x,
        (x & y) & y == x & y,
        x ^ 0xffff_ffff == !x,
        0xffff_ffff ^ x == !x,
{
}

} // verus!
