//! What holds of MINGLE and SELECT together: SELECT by the alternating
//! masks takes a MINGLE apart again.

use vstd::prelude::*;
use crate::bits::{lemma_mingle_closed, mingle_spec, select_spec, spread};

verus! {

/// The bits of `x` at the even places, each moved from place `2k` to place
/// `k`.
pub open spec fn squeeze(x: u32) -> u32 {
    let a = x & 0x5555_5555;
    let b = (a | (a >> 1)) & 0x3333_3333;
    let c = (b | (b >> 2)) & 0x0f0f_0f0f;
    let d = (c | (c >> 4)) & 0x00ff_00ff;
    (d | (d >> 8)) & 0x0000_ffff
}

/// The mask of the `n` lowest even places.
pub open spec fn even_mask(n: nat) -> nat
    decreases n,
{
    if n == 0 {
        0
    } else {
        1 + 4 * even_mask((n - 1) as nat)
    }
}

proof fn lemma_even_mask_bound(n: nat)
    requires
        n <= 16,
    ensures
        even_mask(n) <= 0x5555_5555,
        n <= 15 ==> even_mask(n) <= 0x1555_5555,
        even_mask(16) == 0x5555_5555,
        even_mask(15) == 0x1555_5555,
    decreases n,
{
    reveal_with_fuel(even_mask, 17);
    if n > 0 {
        lemma_even_mask_bound((n - 1) as nat);
    }
}

proof fn lemma_even_step(v: u32, e: u32, inner: u32)
    by (bit_vector)
    requires
        e <= 0x1555_5555,
        e & 0xaaaa_aaaa == 0,
        inner == squeeze((v >> 2) & e),
    ensures
        (1 + 4 * e) as u32 == 1 | (e << 2),
        (1 | (e << 2)) & 0xaaaa_aaaa == 0,
        (1 | (e << 2)) != 0,
        (1 | (e << 2)) & 1 == 1,
        (1 | (e << 2)) >> 1 == e << 1,
        (e << 1) & 1 == 0,
        (e << 1) >> 1 == e,
        e != 0 ==> (e << 1) != 0,
        (v >> 1) >> 1 == v >> 2,
        (v & 1) | (inner << 1) == squeeze(v & (1 | (e << 2))),
        (v & 1) | (0u32 << 1) == squeeze(v & 1),
        squeeze(v & 0) == 0,
        squeeze((v >> 2) & 0) == 0,
{
}

/// SELECT by the mask of the `n` lowest even places gathers the bits at
/// those places.
pub proof fn lemma_select_even_mask(v: u32, n: nat)
    requires
        n <= 16,
    ensures
        n == 15 ==> even_mask(n) == 0x1555_5555,
        n == 16 ==> even_mask(n) == 0x5555_5555,
        select_spec(v, even_mask(n) as u32) == squeeze(v & (even_mask(n) as u32)),
{
    lemma_even_mask_bound(n);
    lemma_select_even(v, n);
}

proof fn lemma_select_even(v: u32, n: nat)
    requires
        n <= 16,
    ensures
        (even_mask(n) as u32) & 0xaaaa_aaaa == 0,
        select_spec(v, even_mask(n) as u32) == squeeze(v & (even_mask(n) as u32)),
    decreases n,
{
    lemma_even_mask_bound(n);
    if n == 0 {
        assert(0u32 & 0xaaaa_aaaa == 0) by (bit_vector);
        lemma_even_step(v, 0, squeeze((v >> 2) & 0));
        assert(even_mask(0) as u32 == 0u32);
    } else {
        let m = (n - 1) as nat;
        lemma_even_mask_bound(m);
        lemma_select_even(v >> 2, m);
        let e = even_mask(m) as u32;
        let inner = select_spec(v >> 2, e);
        lemma_even_step(v, e, inner);
        let mask = even_mask(n) as u32;
        assert(mask == 1 | (e << 2));
        reveal_with_fuel(select_spec, 3);
        if e == 0 {
            assert(select_spec(v >> 1, mask >> 1) == 0);
            assert(inner == 0);
        } else {
            assert(select_spec(v >> 1, mask >> 1) == select_spec((v >> 1) >> 1, (mask >> 1) >> 1));
        }
    }
}

proof fn lemma_odd_mask(v: u32)
    by (bit_vector)
    ensures
        0xaaaa_aaaau32 != 0,
        0xaaaa_aaaau32 & 1 != 1,
        0xaaaa_aaaau32 >> 1 == 0x5555_5555u32,
        v & 0x5555_5555 == v & 0x5555_5555u32,
        squeeze(v & 0x5555_5555) == squeeze(v),
{
}

/// SELECT by the mask of the even places gathers the bits at the even
/// places.
pub proof fn lemma_select_evens(v: u32)
    ensures
        select_spec(v, 0x5555_5555) == squeeze(v),
{
    lemma_even_mask_bound(16);
    lemma_select_even(v, 16);
    lemma_odd_mask(v);
}

/// SELECT by the mask of the odd places gathers the bits at the odd
/// places.
pub proof fn lemma_select_odds(v: u32)
    ensures
        select_spec(v, 0xaaaa_aaaa) == squeeze(v >> 1),
{
    lemma_odd_mask(v);
    lemma_select_evens(v >> 1);
}

proof fn lemma_squeeze_spread(a: u32, b: u32)
    by (bit_vector)
    requires
        a <= 0xffff,
        b <= 0xffff,
    ensures
        squeeze(((spread(a) << 1) | spread(b)) >> 1) == a,
        squeeze((spread(a) << 1) | spread(b)) == b,
{
}

/// SELECT takes a MINGLE apart: by the mask of the odd places it gives the
/// left operand back, by the mask of the even places the right one.
pub proof fn lemma_select_mingle(a: u16, b: u16)
    ensures
        select_spec(mingle_spec(a as u32, b as u32), 0xaaaa_aaaa) == a,
        select_spec(mingle_spec(a as u32, b as u32), 0x5555_5555) == b,
{
    let m = mingle_spec(a as u32, b as u32);
    lemma_mingle_closed(a as u32, b as u32);
    lemma_select_odds(m);
    lemma_select_evens(m);
    lemma_squeeze_spread(a as u32, b as u32);
}

} // verus!
