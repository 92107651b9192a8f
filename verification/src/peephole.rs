//! Each replacement of the expression pass keeps the value of the
//! expression that it replaces, wherever that expression has a value.

use vstd::prelude::*;
use vstd::std_specs::bits::{u32_leading_zeros, u32_trailing_zeros};
use crate::ast::{BitOp, ExprV, VType};
use crate::bits::mingle_spec;
use crate::err::ErrCode;
use crate::opt::{
    is_run, mingle_with, num_value, rewrite_mingle, rewrite_mingle_halves, rewrite_rs_xor,
    rewrite_select, rewrite_select_run, rs_bitop, select_by, unary_of_mingle,
};
use crate::patterns::{
    lemma_host_identities, lemma_mingle_halves, lemma_mingle_small, lemma_select_run,
    lemma_select_run_ends, lemma_select_shifted, lemma_unary_of_mingle,
};
use crate::sem::{eval_expr, State};
use crate::val::Val;
use crate::valid::{expr_ok, Sizes};

verus! {

/// Whether the outcome `b` stands in for the outcome `a`: where `a` is a
/// value, `b` is a value with the same integer. Nothing is asked where `a`
/// is an error.
pub open spec fn agrees(a: Result<Val, ErrCode>, b: Result<Val, ErrCode>) -> bool {
    match a {
        Ok(x) => match b {
            Ok(y) => y.value() == x.value(),
            Err(_) => false,
        },
        Err(_) => true,
    }
}

/// The host operator `op` on two words.
pub open spec fn host(op: BitOp, x: u32, y: u32) -> u32 {
    match op {
        BitOp::And => x & y,
        BitOp::Or => x | y,
        BitOp::Xor => x ^ y,
    }
}

/// The literals of the two halves, where a MINGLE is replaced by a host
/// operator with a literal put together from them.
pub open spec fn literal_halves(vx: ExprV, wx: ExprV) -> Option<(u32, u32)> {
    match (rs_bitop(vx), rs_bitop(wx)) {
        (Some((op, va, vb)), Some((op2, wa, wb))) => if op == op2 && select_by(va, 0xaaaa_aaaa)
            is Some && select_by(va, 0xaaaa_aaaa) == select_by(wa, 0x5555_5555) && !(select_by(
            vb,
            0xaaaa_aaaa,
        ) is Some && select_by(wb, 0x5555_5555) is Some) {
            match (num_value(vb), num_value(wb)) {
                (Some(bn), Some(dn)) => Some((bn, dn)),
                _ => None,
            }
        } else {
            None
        },
        _ => None,
    }
}

/// Whether two literals are the two halves of the word that the pass puts
/// together from them: their MINGLE is the one above the other.
pub open spec fn halves_fit(bn: u32, dn: u32) -> bool {
    mingle_spec(bn & 0xffff, dn & 0xffff) == (bn << 16) | dn
}

/// A SELECT by a literal whose ones form one run has the value of the
/// shift and mask that replace it.
pub proof fn lemma_select_run_sound(st: State, vx: ExprV, t: VType, i: u32, z: Sizes)
    requires
        expr_ok(ExprV::Num(t, i), z),
        is_run(i),
    ensures
        agrees(
            eval_expr(st, ExprV::Select(Box::new(vx), Box::new(ExprV::Num(t, i)))),
            eval_expr(st, rewrite_select_run(vx, i)),
        ),
{
    reveal_with_fuel(eval_expr, 3);
    let lz = u32_leading_zeros(i);
    let tz = u32_trailing_zeros(i);
    let len = (32 - lz - tz) as u32;
    match eval_expr(st, vx) {
        Ok(x) => {
            lemma_select_run(x.value(), len, tz);
            lemma_select_run_ends(x.value(), len, tz);
        },
        Err(_) => {},
    }
}

/// A replacement of a SELECT has the value of the SELECT.
pub proof fn lemma_rewrite_select_sound(st: State, vx: ExprV, wx: ExprV, z: Sizes)
    requires
        expr_ok(vx, z),
        expr_ok(wx, z),
        rewrite_select(vx, wx) is Some,
    ensures
        agrees(
            eval_expr(st, ExprV::Select(Box::new(vx), Box::new(wx))),
            eval_expr(st, rewrite_select(vx, wx).unwrap()),
        ),
{
    reveal_with_fuel(eval_expr, 4);
    reveal_with_fuel(expr_ok, 3);
    match wx {
        ExprV::Num(t, i) => {
            if i == 0x5555_5555 {
                let (op, m1, m2) = unary_of_mingle(vx).unwrap();
                match (eval_expr(st, m1), eval_expr(st, m2)) {
                    (Ok(x), Ok(y)) => {
                        if x.value() <= 0xffff && y.value() <= 0xffff {
                            lemma_unary_of_mingle(x.value(), y.value());
                        }
                    },
                    _ => {},
                }
            } else if is_run(i) {
                lemma_select_run_sound(st, vx, t, i, z);
            } else {
                let m1 = mingle_with(vx, 0).unwrap();
                match eval_expr(st, m1) {
                    Ok(x) => {
                        if x.value() <= 0xffff {
                            lemma_select_shifted(x.value());
                        }
                    },
                    Err(_) => {},
                }
            }
        },
        _ => {},
    }
}

proof fn lemma_literal_halves_closed(x: u32, bn: u32, dn: u32)
    by (bit_vector)
    requires
        (crate::bits::spread(bn & 0xffff) << 1) | crate::bits::spread(dn & 0xffff) == (bn << 16)
            | dn,
    ensures
        (crate::bitlaws::squeeze(x >> 1) & bn) <= 0xffff && (crate::bitlaws::squeeze(x) & dn)
            <= 0xffff ==> (crate::bits::spread(crate::bitlaws::squeeze(x >> 1) & bn) << 1)
            | crate::bits::spread(crate::bitlaws::squeeze(x) & dn) == x & ((bn << 16) | dn),
        (crate::bitlaws::squeeze(x >> 1) | bn) <= 0xffff && (crate::bitlaws::squeeze(x) | dn)
            <= 0xffff ==> (crate::bits::spread(crate::bitlaws::squeeze(x >> 1) | bn) << 1)
            | crate::bits::spread(crate::bitlaws::squeeze(x) | dn) == x | ((bn << 16) | dn),
        (crate::bitlaws::squeeze(x >> 1) ^ bn) <= 0xffff && (crate::bitlaws::squeeze(x) ^ dn)
            <= 0xffff ==> (crate::bits::spread(crate::bitlaws::squeeze(x >> 1) ^ bn) << 1)
            | crate::bits::spread(crate::bitlaws::squeeze(x) ^ dn) == x ^ ((bn << 16) | dn),
{
}

/// A host operator carried out on the two halves of a word against two
/// literals that fit, the results mingled, is the operator on the word
/// against the literal put together.
pub proof fn lemma_literal_halves(op: BitOp, x: u32, bn: u32, dn: u32)
    requires
        halves_fit(bn, dn),
        host(op, crate::bits::select_spec(x, 0xaaaa_aaaa), bn) <= 0xffff,
        host(op, crate::bits::select_spec(x, 0x5555_5555), dn) <= 0xffff,
    ensures
        mingle_spec(
            host(op, crate::bits::select_spec(x, 0xaaaa_aaaa), bn),
            host(op, crate::bits::select_spec(x, 0x5555_5555), dn),
        ) == host(op, x, (bn << 16) | dn),
{
    crate::bitlaws::lemma_select_odds(x);
    crate::bitlaws::lemma_select_evens(x);
    assert((bn & 0xffff) <= 0xffff && (dn & 0xffff) <= 0xffff) by (bit_vector);
    crate::bits::lemma_mingle_closed(bn & 0xffff, dn & 0xffff);
    lemma_literal_halves_closed(x, bn, dn);
    crate::bits::lemma_mingle_closed(
        host(op, crate::bits::select_spec(x, 0xaaaa_aaaa), bn),
        host(op, crate::bits::select_spec(x, 0x5555_5555), dn),
    );
}

/// The replacement of a MINGLE of two halves has the value of the MINGLE.
pub proof fn lemma_rewrite_halves_sound(st: State, vx: ExprV, wx: ExprV, z: Sizes)
    requires
        expr_ok(vx, z),
        expr_ok(wx, z),
        rewrite_mingle_halves(vx, wx) is Some,
        match literal_halves(vx, wx) {
            Some((bn, dn)) => halves_fit(bn, dn),
            None => true,
        },
    ensures
        agrees(
            eval_expr(st, ExprV::Mingle(Box::new(vx), Box::new(wx))),
            eval_expr(st, rewrite_mingle_halves(vx, wx).unwrap()),
        ),
{
    reveal_with_fuel(eval_expr, 4);
    reveal_with_fuel(expr_ok, 4);
    let (op, va, vb) = rs_bitop(vx).unwrap();
    let (op2, wa, wb) = rs_bitop(wx).unwrap();
    let ax = select_by(va, 0xaaaa_aaaa).unwrap();
    match eval_expr(st, ax) {
        Ok(x) => {
            if select_by(vb, 0xaaaa_aaaa) is Some && select_by(wb, 0x5555_5555) is Some {
                let bx = select_by(vb, 0xaaaa_aaaa).unwrap();
                match eval_expr(st, bx) {
                    Ok(y) => {
                        lemma_mingle_halves(x.value(), y.value());
                    },
                    Err(_) => {},
                }
            } else {
                let bn = num_value(vb).unwrap();
                let dn = num_value(wb).unwrap();
                assert(literal_halves(vx, wx) == Some((bn, dn)));
                let bv = eval_expr(st, vb).unwrap().value();
                let dv = eval_expr(st, wb).unwrap().value();
                assert(bv == bn && dv == dn);
                let hi = crate::bits::select_spec(x.value(), 0xaaaa_aaaa);
                let lo = crate::bits::select_spec(x.value(), 0x5555_5555);
                if host(op, hi, bn) <= 0xffff && host(op, lo, dn) <= 0xffff {
                    lemma_literal_halves(op, x.value(), bn, dn);
                }
            }
        },
        Err(_) => {},
    }
}

/// A replacement of a MINGLE has the value of the MINGLE, where the
/// literals of two halves fit.
pub proof fn lemma_rewrite_mingle_sound(st: State, vx: ExprV, wx: ExprV, z: Sizes)
    requires
        expr_ok(vx, z),
        expr_ok(wx, z),
        rewrite_mingle(vx, wx) is Some,
        match literal_halves(vx, wx) {
            Some((bn, dn)) => halves_fit(bn, dn),
            None => true,
        },
    ensures
        agrees(
            eval_expr(st, ExprV::Mingle(Box::new(vx), Box::new(wx))),
            eval_expr(st, rewrite_mingle(vx, wx).unwrap()),
        ),
{
    if vx is RsNotEqual && wx is RsNotEqual {
        reveal_with_fuel(eval_expr, 4);
        match (eval_expr(st, vx), eval_expr(st, wx)) {
            (Ok(v), Ok(w)) => {
                lemma_mingle_small(v.value(), w.value());
            },
            _ => {},
        }
    } else {
        lemma_rewrite_halves_sound(st, vx, wx, z);
    }
}

/// A replacement of a host XOR has the value of the XOR.
pub proof fn lemma_rewrite_rs_xor_sound(st: State, vx: ExprV, wx: ExprV, z: Sizes)
    requires
        expr_ok(vx, z),
        expr_ok(wx, z),
        rewrite_rs_xor(vx, wx) is Some,
    ensures
        agrees(
            eval_expr(st, ExprV::RsXor(Box::new(vx), Box::new(wx))),
            eval_expr(st, rewrite_rs_xor(vx, wx).unwrap()),
        ),
{
    reveal_with_fuel(eval_expr, 3);
    match (eval_expr(st, vx), eval_expr(st, wx)) {
        (Ok(x), Ok(y)) => {
            lemma_host_identities(x.value(), y.value());
            lemma_host_identities(y.value(), x.value());
        },
        _ => {},
    }
}

} // verus!
