//! Each replacement of a host AND keeps the value of the AND.

use vstd::prelude::*;
use crate::ast::{BitOp, ExprV, VType};
use crate::opt::{
    low_bit, mingle_with, num, num_value, rewrite_rs_and, rs_and_right, rs_node, unary_node,
    unary_of_mingle, xor_arg,
};
use crate::patterns::{
    lemma_host_identities, lemma_mingle_small, lemma_select_self, lemma_unary_of_mingle,
    lemma_xor_of_mingle,
};
use crate::bits::mingle_spec;
use crate::err::ErrCode;
use crate::peephole::agrees;
use crate::sem::{
    apply1, apply2, eval_expr, literal_value, wrap_add, wrap_sub, Bin, State,
};
use crate::val::Val;
use crate::valid::{expr_ok, Sizes};

verus! {

/// The lowest bit of a test is the test.
pub proof fn lemma_and_of_test(st: State, vx: ExprV, t: VType)
    requires
        vx is RsNotEqual,
    ensures
        agrees(
            eval_expr(st, ExprV::RsAnd(Box::new(vx), Box::new(ExprV::Num(t, 1)))),
            eval_expr(st, vx),
        ),
{
    reveal_with_fuel(eval_expr, 2);
    match eval_expr(st, vx) {
        Ok(v) => {
            lemma_mingle_small(0, v.value());
        },
        Err(_) => {},
    }
}

/// A mask applied twice is the mask applied once.
pub proof fn lemma_and_repeated(st: State, p: ExprV, q: ExprV)
    ensures
        agrees(
            eval_expr(
                st,
                ExprV::RsAnd(Box::new(ExprV::RsAnd(Box::new(p), Box::new(q))), Box::new(q)),
            ),
            eval_expr(st, ExprV::RsAnd(Box::new(p), Box::new(q))),
        ),
{
    reveal_with_fuel(eval_expr, 3);
    match (eval_expr(st, p), eval_expr(st, q)) {
        (Ok(x), Ok(y)) => {
            lemma_host_identities(x.value(), y.value());
        },
        _ => {},
    }
}

/// The lowest bit of a unary operator over a MINGLE is the host operator
/// on the lowest bits of the operands of the MINGLE.
pub proof fn lemma_and_low_of_unary(
    st: State,
    op: BitOp,
    t: VType,
    m1: ExprV,
    m2: ExprV,
    t1: VType,
)
    ensures
        agrees(
            eval_expr(
                st,
                ExprV::RsAnd(
                    Box::new(
                        unary_node(op, t, ExprV::Mingle(Box::new(m1), Box::new(m2))),
                    ),
                    Box::new(ExprV::Num(t1, 1)),
                ),
            ),
            eval_expr(st, rs_node(op, low_bit(m1), low_bit(m2))),
        ),
{
    reveal_with_fuel(eval_expr, 4);
    match (eval_expr(st, m1), eval_expr(st, m2)) {
        (Ok(x), Ok(y)) => {
            if x.value() <= 0xffff && y.value() <= 0xffff {
                lemma_unary_of_mingle(x.value(), y.value());
                lemma_xor_of_mingle(x.value());
                lemma_xor_of_mingle(y.value());
            }
        },
        _ => {},
    }
}

/// A mask of all ones changes nothing.
pub proof fn lemma_and_all(st: State, vx: ExprV)
    ensures
        agrees(
            eval_expr(st, ExprV::RsAnd(Box::new(vx), Box::new(num(0xffff_ffff)))),
            eval_expr(st, vx),
        ),
{
    reveal_with_fuel(eval_expr, 2);
    match eval_expr(st, vx) {
        Ok(x) => {
            lemma_host_identities(x.value(), 0);
        },
        Err(_) => {},
    }
}

/// What stands in for the two low bits of the unary XOR of a MINGLE with
/// the literal `w`: a count up from one, or a count down from two.
pub open spec fn counted(w: u32, mx: ExprV) -> ExprV {
    if w == 1 {
        ExprV::RsPlus(Box::new(num(1)), Box::new(low_bit(mx)))
    } else {
        ExprV::RsMinus(Box::new(num(2)), Box::new(low_bit(mx)))
    }
}

/// The host sum and difference that stand in for the two low bits of the
/// unary XOR of a MINGLE with one and with two.
proof fn lemma_count_values(x: u32)
    requires
        x <= 0xffff,
    ensures
        Val::of(wrap_add(1, Val::of(x & 1).value())).value() == Val::of(
            crate::bits::xor_32_spec(mingle_spec(x, 1)) & 3,
        ).value(),
        Val::of(wrap_sub(2, Val::of(x & 1).value())).value() == Val::of(
            crate::bits::xor_32_spec(mingle_spec(x, 2)) & 3,
        ).value(),
{
    lemma_xor_of_mingle(x);
}

/// The two low bits of the unary XOR of a MINGLE with one count the low
/// bit of the left operand up from one, and those of a MINGLE with two
/// count it down from two.
pub proof fn lemma_and_xor_count(st: State, t: VType, mx: ExprV, t2: VType, w: u32, t3: VType)
    requires
        w == 1 || w == 2,
    ensures
        agrees(
            eval_expr(
                st,
                ExprV::RsAnd(
                    Box::new(
                        ExprV::Xor(
                            t,
                            Box::new(
                                ExprV::Mingle(Box::new(mx), Box::new(ExprV::Num(t2, w))),
                            ),
                        ),
                    ),
                    Box::new(ExprV::Num(t3, 3)),
                ),
            ),
            eval_expr(st, counted(w, mx)),
        ),
{
    let lit = ExprV::Num(t2, w);
    let m = ExprV::Mingle(Box::new(mx), Box::new(lit));
    let xr = ExprV::Xor(t, Box::new(m));
    let three = ExprV::Num(t3, 3);
    let whole = ExprV::RsAnd(Box::new(xr), Box::new(three));
    let low = low_bit(mx);
    let r = counted(w, mx);
    let vx = eval_expr(st, mx);
    let vlit = eval_expr(st, lit);
    let vm = eval_expr(st, m);
    let vxr = eval_expr(st, xr);
    let vthree = eval_expr(st, three);
    let vwhole = eval_expr(st, whole);
    let vone = eval_expr(st, num(1));
    let vtwo = eval_expr(st, num(2));
    let vlow = eval_expr(st, low);
    let vr = eval_expr(st, r);
    assert(vlit == Ok::<Val, ErrCode>(literal_value(t2, w)));
    assert(literal_value(t2, w).value() == w);
    assert(vthree == Ok::<Val, ErrCode>(literal_value(t3, 3)));
    assert(literal_value(t3, 3).value() == 3);
    assert(vm == apply2(Bin::Mingle, vx, vlit));
    assert(vxr == apply1(BitOp::Xor, vm));
    assert(vwhole == apply2(Bin::And, vxr, vthree));
    assert(vone == Ok::<Val, ErrCode>(Val::I32(1)));
    assert(vtwo == Ok::<Val, ErrCode>(Val::I32(2)));
    assert(vlow == apply2(Bin::And, vx, vone));
    assert(vr == if w == 1 {
        apply2(Bin::Plus, vone, vlow)
    } else {
        apply2(Bin::Minus, vtwo, vlow)
    });
    match vx {
        Ok(x) => {
            if x.value() <= 0xffff {
                lemma_count_values(x.value());
                assert(vm == Ok::<Val, ErrCode>(Val::I32(mingle_spec(x.value(), w))));
                assert(vlow == Ok::<Val, ErrCode>(Val::of(x.value() & 1)));
            } else {
                assert(vm is Err);
            }
        },
        Err(_) => {},
    }
}

/// The lowest bit of the SELECT of an operand by itself tells whether the
/// operand is zero.
pub proof fn lemma_and_select_self(st: State, sx: ExprV, t: VType)
    ensures
        agrees(
            eval_expr(
                st,
                ExprV::RsAnd(
                    Box::new(ExprV::Select(Box::new(sx), Box::new(sx))),
                    Box::new(ExprV::Num(t, 1)),
                ),
            ),
            eval_expr(st, ExprV::RsNotEqual(Box::new(sx), Box::new(num(0)))),
        ),
{
    reveal_with_fuel(eval_expr, 3);
    match eval_expr(st, sx) {
        Ok(x) => {
            lemma_select_self(x.value());
        },
        Err(_) => {},
    }
}

/// A replacement of a host AND has the value of the AND.
pub proof fn lemma_rewrite_rs_and_sound(st: State, vx: ExprV, wx: ExprV, z: Sizes)
    requires
        expr_ok(vx, z),
        expr_ok(wx, z),
        rewrite_rs_and(vx, wx) is Some,
    ensures
        agrees(
            eval_expr(st, ExprV::RsAnd(Box::new(vx), Box::new(wx))),
            eval_expr(st, rewrite_rs_and(vx, wx).unwrap()),
        ),
{
    let lit = num_value(wx);
    if vx is RsNotEqual && lit == Some(1u32) {
        match wx {
            ExprV::Num(t, _) => lemma_and_of_test(st, vx, t),
            _ => {},
        }
    } else if rs_and_right(vx) == Some(wx) {
        match vx {
            ExprV::RsAnd(p, q) => lemma_and_repeated(st, *p, *q),
            _ => {},
        }
    } else if lit == Some(1u32) && unary_of_mingle(vx) is Some {
        let t1 = wx->Num_0;
        match vx {
            ExprV::And(t, m) => match *m {
                ExprV::Mingle(a, b) => lemma_and_low_of_unary(st, BitOp::And, t, *a, *b, t1),
                _ => {},
            },
            ExprV::Or(t, m) => match *m {
                ExprV::Mingle(a, b) => lemma_and_low_of_unary(st, BitOp::Or, t, *a, *b, t1),
                _ => {},
            },
            ExprV::Xor(t, m) => match *m {
                ExprV::Mingle(a, b) => lemma_and_low_of_unary(st, BitOp::Xor, t, *a, *b, t1),
                _ => {},
            },
            _ => {},
        }
    } else if lit == Some(0xffff_ffffu32) {
        assert(wx == num(0xffff_ffff));
        lemma_and_all(st, vx);
    } else if lit == Some(3u32) && xor_arg(vx) is Some && mingle_with(xor_arg(vx).unwrap(), 2)
        is Some {
        let t3 = wx->Num_0;
        match vx {
            ExprV::Xor(t, m) => match *m {
                ExprV::Mingle(a, b) => match *b {
                    ExprV::Num(t2, _) => lemma_and_xor_count(st, t, *a, t2, 2, t3),
                    _ => {},
                },
                _ => {},
            },
            _ => {},
        }
    } else if lit == Some(3u32) && xor_arg(vx) is Some && mingle_with(xor_arg(vx).unwrap(), 1)
        is Some {
        let t3 = wx->Num_0;
        match vx {
            ExprV::Xor(t, m) => match *m {
                ExprV::Mingle(a, b) => match *b {
                    ExprV::Num(t2, _) => lemma_and_xor_count(st, t, *a, t2, 1, t3),
                    _ => {},
                },
                _ => {},
            },
            _ => {},
        }
    } else {
        let t = wx->Num_0;
        match vx {
            ExprV::Select(a, b) => lemma_and_select_self(st, *a, t),
            _ => {},
        }
    }
}

} // verus!
