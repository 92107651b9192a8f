//! The optimizer: a fixed sequence of passes over a program. Constant
//! folding reduces operators on literals; the expression pass replaces
//! known patterns of INTERCAL operators by host arithmetic.

use vstd::prelude::*;
use vstd::std_specs::bits::{u32_leading_zeros, u32_trailing_zeros};
use crate::ast::{expr_view, BitOp, Expr, ExprV, Program, VType};
use crate::bits::{
    and_16, and_16_spec, and_32, and_32_spec, low_ones, mingle, mingle_spec, or_16, or_16_spec,
    or_32, or_32_spec, select, select_spec, xor_16, xor_16_spec, xor_32, xor_32_spec,
};

verus! {

/// The optimizer: a program and the choice of passes to run on it.
pub struct Optimizer {
    pub program: Program,
    pub allow_const_out: bool,
}

/// The 32-bit literal `i`.
pub open spec fn num(i: u32) -> ExprV {
    ExprV::Num(VType::I32, i)
}

fn n(i: u32) -> (r: Box<Expr>)
    ensures
        r@ == num(i),
{
    Box::new(Expr::Num(VType::I32, i))
}

/// The result of a unary INTERCAL operator on a literal of the given width.
pub open spec fn unary_value(op: BitOp, t: VType, v: u32) -> u32 {
    match t {
        VType::I16 => match op {
            BitOp::And => and_16_spec(v as u16) as u32,
            BitOp::Or => or_16_spec(v as u16) as u32,
            BitOp::Xor => xor_16_spec(v as u16) as u32,
        },
        VType::I32 => match op {
            BitOp::And => and_32_spec(v),
            BitOp::Or => or_32_spec(v),
            BitOp::Xor => xor_32_spec(v),
        },
    }
}

/// The unary INTERCAL operator `op` applied to `a`.
pub open spec fn unary_node(op: BitOp, t: VType, a: ExprV) -> ExprV {
    match op {
        BitOp::And => ExprV::And(t, Box::new(a)),
        BitOp::Or => ExprV::Or(t, Box::new(a)),
        BitOp::Xor => ExprV::Xor(t, Box::new(a)),
    }
}

/// The host operator `op` applied to `a` and `b`.
pub open spec fn rs_node(op: BitOp, a: ExprV, b: ExprV) -> ExprV {
    match op {
        BitOp::And => ExprV::RsAnd(Box::new(a), Box::new(b)),
        BitOp::Or => ExprV::RsOr(Box::new(a), Box::new(b)),
        BitOp::Xor => ExprV::RsXor(Box::new(a), Box::new(b)),
    }
}

/// A unary operator over a folded operand: the literal result where the
/// operand is a literal, the operator otherwise.
pub open spec fn fold_unary(op: BitOp, t: VType, a: ExprV) -> ExprV {
    match a {
        ExprV::Num(vt, v) => ExprV::Num(vt, unary_value(op, vt, v)),
        _ => unary_node(op, t, a),
    }
}

/// MINGLE over folded operands.
pub open spec fn fold_mingle(a: ExprV, b: ExprV) -> ExprV {
    match (a, b) {
        (ExprV::Num(_, v), ExprV::Num(_, w)) if v <= 0xffff && w <= 0xffff => num(
            mingle_spec(v, w),
        ),
        _ => ExprV::Mingle(Box::new(a), Box::new(b)),
    }
}

/// SELECT over folded operands.
pub open spec fn fold_select(a: ExprV, b: ExprV) -> ExprV {
    match (a, b) {
        (ExprV::Num(_, v), ExprV::Num(_, w)) => num(select_spec(v, w)),
        _ => ExprV::Select(Box::new(a), Box::new(b)),
    }
}

/// The expression with every INTERCAL operator on literals replaced by its
/// result, from the leaves up. The host operators are left as they are.
pub open spec fn fold_spec(e: ExprV) -> ExprV
    decreases e,
{
    match e {
        ExprV::Mingle(a, b) => fold_mingle(fold_spec(*a), fold_spec(*b)),
        ExprV::Select(a, b) => fold_select(fold_spec(*a), fold_spec(*b)),
        ExprV::And(t, a) => fold_unary(BitOp::And, t, fold_spec(*a)),
        ExprV::Or(t, a) => fold_unary(BitOp::Or, t, fold_spec(*a)),
        ExprV::Xor(t, a) => fold_unary(BitOp::Xor, t, fold_spec(*a)),
        _ => e,
    }
}

fn unary_literal(op: BitOp, t: VType, v: u32) -> (r: u32)
    ensures
        r == unary_value(op, t, v),
{
    match t {
        VType::I16 => {
            let h: u16 = #[verifier::truncate]
            (v as u16);
            match op {
                BitOp::And => and_16(h) as u32,
                BitOp::Or => or_16(h) as u32,
                BitOp::Xor => xor_16(h) as u32,
            }
        },
        VType::I32 => match op {
            BitOp::And => and_32(v),
            BitOp::Or => or_32(v),
            BitOp::Xor => xor_32(v),
        },
    }
}

fn literal(e: &Expr) -> (r: Option<(VType, u32)>)
    ensures
        match r {
            Some((t, v)) => e@ == ExprV::Num(t, v),
            None => !(e@ is Num),
        },
{
    match e {
        Expr::Num(t, v) => Some((*t, *v)),
        _ => None,
    }
}

impl Optimizer {
    /// Folds the operators on literals in an expression.
    pub fn fold(expr: &mut Expr)
        ensures
            final(expr)@ == fold_spec(old(expr)@),
        decreases *old(expr),
    {
        let mut result: Option<Expr> = None;
        match expr {
            Expr::Mingle(vx, wx) => {
                Optimizer::fold(vx);
                Optimizer::fold(wx);
                if let Some((_, v)) = literal(vx) {
                    if let Some((_, w)) = literal(wx) {
                        if let Ok(z) = mingle(v, w) {
                            result = Some(Expr::Num(VType::I32, z));
                        }
                    }
                }
            },
            Expr::Select(vx, wx) => {
                Optimizer::fold(vx);
                Optimizer::fold(wx);
                if let Some((_, v)) = literal(vx) {
                    if let Some((_, w)) = literal(wx) {
                        result = Some(Expr::Num(VType::I32, select(v, w)));
                    }
                }
            },
            Expr::And(_, vx) => {
                Optimizer::fold(vx);
                if let Some((t, v)) = literal(vx) {
                    result = Some(Expr::Num(t, unary_literal(BitOp::And, t, v)));
                }
            },
            Expr::Or(_, vx) => {
                Optimizer::fold(vx);
                if let Some((t, v)) = literal(vx) {
                    result = Some(Expr::Num(t, unary_literal(BitOp::Or, t, v)));
                }
            },
            Expr::Xor(_, vx) => {
                Optimizer::fold(vx);
                if let Some((t, v)) = literal(vx) {
                    result = Some(Expr::Num(t, unary_literal(BitOp::Xor, t, v)));
                }
            },
            _ => {},
        }
        if let Some(r) = result {
            *expr = r;
        }
    }
}

/// The measure by which the expression pass ends: an INTERCAL operator
/// weighs more than the host arithmetic that takes its place.
pub open spec fn weight(e: ExprV) -> nat
    decreases e,
{
    match e {
        ExprV::Num(_, _) => 1,
        ExprV::Var(_) => 1,
        ExprV::Mingle(a, b) => 4 + weight(*a) + weight(*b),
        ExprV::Select(a, b) => 4 + weight(*a) + weight(*b),
        ExprV::And(_, a) => 2 + weight(*a),
        ExprV::Or(_, a) => 2 + weight(*a),
        ExprV::Xor(_, a) => 2 + weight(*a),
        ExprV::RsNot(a) => 1 + weight(*a),
        ExprV::RsAnd(a, b) => 1 + weight(*a) + weight(*b),
        ExprV::RsOr(a, b) => 1 + weight(*a) + weight(*b),
        ExprV::RsXor(a, b) => 1 + weight(*a) + weight(*b),
        ExprV::RsRshift(a, b) => 1 + weight(*a) + weight(*b),
        ExprV::RsLshift(a, b) => 1 + weight(*a) + weight(*b),
        ExprV::RsPlus(a, b) => 1 + weight(*a) + weight(*b),
        ExprV::RsMinus(a, b) => 1 + weight(*a) + weight(*b),
        ExprV::RsNotEqual(a, b) => 1 + weight(*a) + weight(*b),
    }
}

/// The value of a literal, whatever its width.
pub open spec fn num_value(e: ExprV) -> Option<u32> {
    match e {
        ExprV::Num(_, v) => Some(v),
        _ => None,
    }
}

/// The operator and the two operands of a unary INTERCAL operator over a
/// MINGLE.
pub open spec fn unary_of_mingle(e: ExprV) -> Option<(BitOp, ExprV, ExprV)> {
    match e {
        ExprV::And(_, m) => match *m {
            ExprV::Mingle(a, b) => Some((BitOp::And, *a, *b)),
            _ => None,
        },
        ExprV::Or(_, m) => match *m {
            ExprV::Mingle(a, b) => Some((BitOp::Or, *a, *b)),
            _ => None,
        },
        ExprV::Xor(_, m) => match *m {
            ExprV::Mingle(a, b) => Some((BitOp::Xor, *a, *b)),
            _ => None,
        },
        _ => None,
    }
}

/// The operator and the two operands of a host AND, OR or XOR.
pub open spec fn rs_bitop(e: ExprV) -> Option<(BitOp, ExprV, ExprV)> {
    match e {
        ExprV::RsAnd(a, b) => Some((BitOp::And, *a, *b)),
        ExprV::RsOr(a, b) => Some((BitOp::Or, *a, *b)),
        ExprV::RsXor(a, b) => Some((BitOp::Xor, *a, *b)),
        _ => None,
    }
}

/// The left operand of a SELECT whose right operand is the literal `mask`.
pub open spec fn select_by(e: ExprV, mask: u32) -> Option<ExprV> {
    match e {
        ExprV::Select(x, m) => if num_value(*m) == Some(mask) {
            Some(*x)
        } else {
            None
        },
        _ => None,
    }
}

/// Whether the ones of `i` form one unbroken run.
pub open spec fn is_run(i: u32) -> bool {
    let lz = u32_leading_zeros(i);
    let tz = u32_trailing_zeros(i);
    &&& i != 0
    &&& lz + tz < 32
    &&& i == low_ones((32 - lz - tz) as u32) << tz
}

/// SELECT by a literal whose ones form one run is a shift and a mask.
pub open spec fn rewrite_select_run(vx: ExprV, i: u32) -> ExprV {
    let lz = u32_leading_zeros(i);
    let tz = u32_trailing_zeros(i);
    if tz == 0 {
        ExprV::RsAnd(Box::new(vx), Box::new(num(i)))
    } else if lz == 0 {
        ExprV::RsRshift(Box::new(vx), Box::new(num(tz)))
    } else {
        ExprV::RsAnd(
            Box::new(ExprV::RsRshift(Box::new(vx), Box::new(num(tz)))),
            Box::new(num(low_ones((32 - lz - tz) as u32))),
        )
    }
}

/// What a SELECT of the operands `vx` and `wx` is replaced by, if by
/// anything.
pub open spec fn rewrite_select(vx: ExprV, wx: ExprV) -> Option<ExprV> {
    match num_value(wx) {
        Some(i) => if i == 0x5555_5555 {
            match unary_of_mingle(vx) {
                Some((op, m1, m2)) => Some(rs_node(op, m1, m2)),
                None => None,
            }
        } else if is_run(i) {
            Some(rewrite_select_run(vx, i))
        } else if i == 0x2aaa_aaab {
            match vx {
                ExprV::Mingle(m1, z) => if num_value(*z) == Some(0u32) {
                    Some(
                        ExprV::RsAnd(
                            Box::new(ExprV::RsLshift(m1, Box::new(num(1)))),
                            Box::new(num(0xffff)),
                        ),
                    )
                } else {
                    None
                },
                _ => None,
            }
        } else {
            None
        },
        None => None,
    }
}

/// The two halves of one 32-bit host operation carried out on the odd and
/// on the even bits: the operation on the whole words.
pub open spec fn rewrite_mingle_halves(vx: ExprV, wx: ExprV) -> Option<ExprV> {
    match (rs_bitop(vx), rs_bitop(wx)) {
        (Some((op, va, vb)), Some((op2, wa, wb))) => if op == op2 {
            match (select_by(va, 0xaaaa_aaaa), select_by(wa, 0x5555_5555)) {
                (Some(ax), Some(cx)) => if ax == cx {
                    match (select_by(vb, 0xaaaa_aaaa), select_by(wb, 0x5555_5555)) {
                        (Some(bx), Some(dx)) => if bx == dx {
                            Some(rs_node(op, ax, bx))
                        } else {
                            None
                        },
                        _ => match (num_value(vb), num_value(wb)) {
                            (Some(bn), Some(dn)) => Some(rs_node(op, ax, num((bn << 16) | dn))),
                            _ => None,
                        },
                    }
                } else {
                    None
                },
                _ => None,
            }
        } else {
            None
        },
        _ => None,
    }
}

/// What a MINGLE of the operands `vx` and `wx` is replaced by, if by
/// anything.
pub open spec fn rewrite_mingle(vx: ExprV, wx: ExprV) -> Option<ExprV> {
    if vx is RsNotEqual && wx is RsNotEqual {
        Some(
            ExprV::RsOr(
                Box::new(ExprV::RsLshift(Box::new(vx), Box::new(num(1)))),
                Box::new(wx),
            ),
        )
    } else {
        rewrite_mingle_halves(vx, wx)
    }
}

/// The left operand of a MINGLE whose right operand is the literal `w`.
pub open spec fn mingle_with(e: ExprV, w: u32) -> Option<ExprV> {
    match e {
        ExprV::Mingle(x, z) => if num_value(*z) == Some(w) {
            Some(*x)
        } else {
            None
        },
        _ => None,
    }
}

/// The operand of a unary XOR.
pub open spec fn xor_arg(e: ExprV) -> Option<ExprV> {
    match e {
        ExprV::Xor(_, a) => Some(*a),
        _ => None,
    }
}

/// The right operand of a host AND.
pub open spec fn rs_and_right(e: ExprV) -> Option<ExprV> {
    match e {
        ExprV::RsAnd(_, b) => Some(*b),
        _ => None,
    }
}

/// The operand of a SELECT of an operand by itself.
pub open spec fn select_self(e: ExprV) -> Option<ExprV> {
    match e {
        ExprV::Select(a, b) => if *a == *b {
            Some(*a)
        } else {
            None
        },
        _ => None,
    }
}

/// `vx` masked to its lowest bit.
pub open spec fn low_bit(vx: ExprV) -> ExprV {
    ExprV::RsAnd(Box::new(vx), Box::new(num(1)))
}

/// What a host AND of the operands `vx` and `wx` is replaced by, if by
/// anything.
pub open spec fn rewrite_rs_and(vx: ExprV, wx: ExprV) -> Option<ExprV> {
    let lit = num_value(wx);
    if vx is RsNotEqual && lit == Some(1u32) {
        Some(vx)
    } else if rs_and_right(vx) == Some(wx) {
        Some(vx)
    } else if lit == Some(1u32) && unary_of_mingle(vx) is Some {
        let (op, m1, m2) = unary_of_mingle(vx).unwrap();
        Some(rs_node(op, low_bit(m1), low_bit(m2)))
    } else if lit == Some(0xffff_ffffu32) {
        Some(vx)
    } else if lit == Some(3u32) && xor_arg(vx) is Some && mingle_with(xor_arg(vx).unwrap(), 2)
        is Some {
        let mx = mingle_with(xor_arg(vx).unwrap(), 2).unwrap();
        Some(ExprV::RsMinus(Box::new(num(2)), Box::new(low_bit(mx))))
    } else if lit == Some(3u32) && xor_arg(vx) is Some && mingle_with(xor_arg(vx).unwrap(), 1)
        is Some {
        let mx = mingle_with(xor_arg(vx).unwrap(), 1).unwrap();
        Some(ExprV::RsPlus(Box::new(num(1)), Box::new(low_bit(mx))))
    } else if lit == Some(1u32) && select_self(vx) is Some {
        Some(ExprV::RsNotEqual(Box::new(select_self(vx).unwrap()), Box::new(num(0))))
    } else {
        None
    }
}

/// What a host XOR of the operands `vx` and `wx` is replaced by, if by
/// anything.
pub open spec fn rewrite_rs_xor(vx: ExprV, wx: ExprV) -> Option<ExprV> {
    if num_value(wx) == Some(0xffff_ffffu32) {
        Some(ExprV::RsNot(Box::new(vx)))
    } else if num_value(vx) == Some(0xffff_ffffu32) {
        Some(ExprV::RsNot(Box::new(wx)))
    } else {
        None
    }
}

/// What the expression pass makes of an expression: the operands are done
/// first; then the node over them is replaced if a pattern fits, and what
/// replaces it is done in its turn. A replacement weighs less than the node
/// (see the lemmas on weight below), which is what brings the pass to an
/// end.
pub open spec fn opt_spec(e: ExprV) -> ExprV
    decreases weight(e),
{
    match e {
        ExprV::Num(_, _) => e,
        ExprV::Var(_) => e,
        ExprV::Select(a, b) => {
            let va = opt_spec(*a);
            let vb = opt_spec(*b);
            match rewrite_select(va, vb) {
                Some(r) => if weight(r) < weight(e) {
                    opt_spec(r)
                } else {
                    r
                },
                None => ExprV::Select(Box::new(va), Box::new(vb)),
            }
        },
        ExprV::Mingle(a, b) => {
            let va = opt_spec(*a);
            let vb = opt_spec(*b);
            match rewrite_mingle(va, vb) {
                Some(r) => if weight(r) < weight(e) {
                    opt_spec(r)
                } else {
                    r
                },
                None => ExprV::Mingle(Box::new(va), Box::new(vb)),
            }
        },
        ExprV::RsAnd(a, b) => {
            let va = opt_spec(*a);
            let vb = opt_spec(*b);
            match rewrite_rs_and(va, vb) {
                Some(r) => if weight(r) < weight(e) {
                    opt_spec(r)
                } else {
                    r
                },
                None => ExprV::RsAnd(Box::new(va), Box::new(vb)),
            }
        },
        ExprV::RsXor(a, b) => {
            let va = opt_spec(*a);
            let vb = opt_spec(*b);
            match rewrite_rs_xor(va, vb) {
                Some(r) => if weight(r) < weight(e) {
                    opt_spec(r)
                } else {
                    r
                },
                None => ExprV::RsXor(Box::new(va), Box::new(vb)),
            }
        },
        ExprV::And(t, a) => ExprV::And(t, Box::new(opt_spec(*a))),
        ExprV::Or(t, a) => ExprV::Or(t, Box::new(opt_spec(*a))),
        ExprV::Xor(t, a) => ExprV::Xor(t, Box::new(opt_spec(*a))),
        ExprV::RsNot(a) => ExprV::RsNot(Box::new(opt_spec(*a))),
        ExprV::RsOr(a, b) => ExprV::RsOr(Box::new(opt_spec(*a)), Box::new(opt_spec(*b))),
        ExprV::RsRshift(a, b) => ExprV::RsRshift(
            Box::new(opt_spec(*a)),
            Box::new(opt_spec(*b)),
        ),
        ExprV::RsLshift(a, b) => ExprV::RsLshift(
            Box::new(opt_spec(*a)),
            Box::new(opt_spec(*b)),
        ),
        ExprV::RsPlus(a, b) => ExprV::RsPlus(Box::new(opt_spec(*a)), Box::new(opt_spec(*b))),
        ExprV::RsMinus(a, b) => ExprV::RsMinus(Box::new(opt_spec(*a)), Box::new(opt_spec(*b))),
        ExprV::RsNotEqual(a, b) => ExprV::RsNotEqual(
            Box::new(opt_spec(*a)),
            Box::new(opt_spec(*b)),
        ),
    }
}

/// Every replacement of a SELECT weighs less than the SELECT.
pub proof fn lemma_rewrite_select_weight(vx: ExprV, wx: ExprV)
    ensures
        match rewrite_select(vx, wx) {
            Some(r) => weight(r) < 4 + weight(vx) + weight(wx),
            None => true,
        },
{
    reveal_with_fuel(weight, 4);
}

/// Every replacement of a MINGLE weighs less than the MINGLE.
pub proof fn lemma_rewrite_mingle_weight(vx: ExprV, wx: ExprV)
    ensures
        match rewrite_mingle(vx, wx) {
            Some(r) => weight(r) < 4 + weight(vx) + weight(wx),
            None => true,
        },
{
    reveal_with_fuel(weight, 4);
}

/// Every replacement of a host AND weighs less than the AND.
pub proof fn lemma_rewrite_rs_and_weight(vx: ExprV, wx: ExprV)
    ensures
        match rewrite_rs_and(vx, wx) {
            Some(r) => weight(r) < 1 + weight(vx) + weight(wx),
            None => true,
        },
{
    reveal_with_fuel(weight, 4);
}

/// Every replacement of a host XOR weighs less than the XOR.
pub proof fn lemma_rewrite_rs_xor_weight(vx: ExprV, wx: ExprV)
    ensures
        match rewrite_rs_xor(vx, wx) {
            Some(r) => weight(r) < 1 + weight(vx) + weight(wx),
            None => true,
        },
{
    reveal_with_fuel(weight, 4);
}

fn unary_of_mingle_parts(e: &Expr) -> (r: Option<(BitOp, &Expr, &Expr)>)
    ensures
        match r {
            Some((op, a, b)) => unary_of_mingle(e@) == Some((op, a@, b@)),
            None => unary_of_mingle(e@) is None,
        },
{
    proof {
        reveal_with_fuel(expr_view, 3);
    }
    match e {
        Expr::And(_, m) => match &**m {
            Expr::Mingle(a, b) => Some((BitOp::And, &**a, &**b)),
            _ => None,
        },
        Expr::Or(_, m) => match &**m {
            Expr::Mingle(a, b) => Some((BitOp::Or, &**a, &**b)),
            _ => None,
        },
        Expr::Xor(_, m) => match &**m {
            Expr::Mingle(a, b) => Some((BitOp::Xor, &**a, &**b)),
            _ => None,
        },
        _ => None,
    }
}

fn rs_bitop_parts(e: &Expr) -> (r: Option<(BitOp, &Expr, &Expr)>)
    ensures
        match r {
            Some((op, a, b)) => rs_bitop(e@) == Some((op, a@, b@)),
            None => rs_bitop(e@) is None,
        },
{
    match e {
        Expr::RsAnd(a, b) => Some((BitOp::And, &**a, &**b)),
        Expr::RsOr(a, b) => Some((BitOp::Or, &**a, &**b)),
        Expr::RsXor(a, b) => Some((BitOp::Xor, &**a, &**b)),
        _ => None,
    }
}

fn is_literal(e: &Expr, i: u32) -> (r: bool)
    ensures
        r == (num_value(e@) == Some(i)),
{
    match e {
        Expr::Num(_, v) => *v == i,
        _ => false,
    }
}

fn select_by_parts(e: &Expr, mask: u32) -> (r: Option<&Expr>)
    ensures
        match r {
            Some(x) => select_by(e@, mask) == Some(x@),
            None => select_by(e@, mask) is None,
        },
{
    match e {
        Expr::Select(x, m) => if is_literal(m, mask) {
            Some(&**x)
        } else {
            None
        },
        _ => None,
    }
}

fn mingle_with_parts(e: &Expr, w: u32) -> (r: Option<&Expr>)
    ensures
        match r {
            Some(x) => mingle_with(e@, w) == Some(x@),
            None => mingle_with(e@, w) is None,
        },
{
    match e {
        Expr::Mingle(x, z) => if is_literal(z, w) {
            Some(&**x)
        } else {
            None
        },
        _ => None,
    }
}

fn rs_make(op: BitOp, a: Expr, b: Expr) -> (r: Expr)
    ensures
        r@ == rs_node(op, a@, b@),
{
    match op {
        BitOp::And => Expr::RsAnd(Box::new(a), Box::new(b)),
        BitOp::Or => Expr::RsOr(Box::new(a), Box::new(b)),
        BitOp::Xor => Expr::RsXor(Box::new(a), Box::new(b)),
    }
}

fn low_bit_of(e: &Expr) -> (r: Expr)
    ensures
        r@ == low_bit(e@),
{
    Expr::RsAnd(Box::new(e.dup()), n(1))
}

fn check_run(i: u32) -> (r: bool)
    ensures
        r == is_run(i),
{
    let lz: u32 = i.leading_zeros();
    let tz: u32 = i.trailing_zeros();
    proof {
        vstd::std_specs::bits::axiom_u32_leading_zeros(i);
        vstd::std_specs::bits::axiom_u32_trailing_zeros(i);
    }
    if i == 0 || lz + tz >= 32 {
        return false;
    }
    i == ones(32 - lz - tz) << tz
}

fn ones(len: u32) -> (r: u32)
    requires
        len <= 32,
    ensures
        r == low_ones(len),
{
    if len >= 32 {
        assert(low_ones(32) == 0xffff_ffffu32) by (bit_vector);
        0xffff_ffff
    } else {
        !(0xffff_ffffu32 << len)
    }
}

fn select_run(vx: &Expr, i: u32) -> (r: Expr)
    requires
        is_run(i),
    ensures
        r@ == rewrite_select_run(vx@, i),
{
    proof {
        reveal_with_fuel(expr_view, 3);
    }
    let lz: u32 = i.leading_zeros();
    let tz: u32 = i.trailing_zeros();
    if tz == 0 {
        Expr::RsAnd(Box::new(vx.dup()), n(i))
    } else if lz == 0 {
        Expr::RsRshift(Box::new(vx.dup()), n(tz))
    } else {
        Expr::RsAnd(
            Box::new(Expr::RsRshift(Box::new(vx.dup()), n(tz))),
            n(ones(32 - lz - tz)),
        )
    }
}

fn select_rewrite(vx: &Expr, wx: &Expr) -> (r: Option<Expr>)
    ensures
        match r {
            Some(x) => rewrite_select(vx@, wx@) == Some(x@),
            None => rewrite_select(vx@, wx@) is None,
        },
{
    proof {
        reveal_with_fuel(expr_view, 3);
    }
    match literal(wx) {
        Some((_, i)) => {
            if i == 0x5555_5555 {
                match unary_of_mingle_parts(vx) {
                    Some((op, m1, m2)) => Some(rs_make(op, m1.dup(), m2.dup())),
                    None => None,
                }
            } else if check_run(i) {
                Some(select_run(vx, i))
            } else if i == 0x2aaa_aaab {
                match mingle_with_parts(vx, 0) {
                    Some(m1) => Some(
                        Expr::RsAnd(
                            Box::new(Expr::RsLshift(Box::new(m1.dup()), n(1))),
                            n(0xffff),
                        ),
                    ),
                    None => None,
                }
            } else {
                None
            }
        },
        None => None,
    }
}

fn mingle_halves_rewrite(vx: &Expr, wx: &Expr) -> (r: Option<Expr>)
    ensures
        match r {
            Some(x) => rewrite_mingle_halves(vx@, wx@) == Some(x@),
            None => rewrite_mingle_halves(vx@, wx@) is None,
        },
{
    let (op, va, vb) = match rs_bitop_parts(vx) {
        Some(p) => p,
        None => {
            return None;
        },
    };
    let (op2, wa, wb) = match rs_bitop_parts(wx) {
        Some(p) => p,
        None => {
            return None;
        },
    };
    if op != op2 {
        return None;
    }
    let ax = match select_by_parts(va, 0xaaaa_aaaa) {
        Some(x) => x,
        None => {
            return None;
        },
    };
    let cx = match select_by_parts(wa, 0x5555_5555) {
        Some(x) => x,
        None => {
            return None;
        },
    };
    if !ax.same(cx) {
        return None;
    }
    match select_by_parts(vb, 0xaaaa_aaaa) {
        Some(bx) => {
            match select_by_parts(wb, 0x5555_5555) {
                Some(dx) => {
                    return if bx.same(dx) {
                        Some(rs_make(op, ax.dup(), bx.dup()))
                    } else {
                        None
                    };
                },
                None => {},
            }
        },
        None => {},
    }
    match literal(vb) {
        Some((_, bn)) => match literal(wb) {
            Some((_, dn)) => Some(rs_make(op, ax.dup(), Expr::Num(VType::I32, (bn << 16) | dn))),
            None => None,
        },
        None => None,
    }
}

fn is_not_equal(e: &Expr) -> (r: bool)
    ensures
        r == (e@ is RsNotEqual),
{
    match e {
        Expr::RsNotEqual(_, _) => true,
        _ => false,
    }
}

fn mingle_rewrite(vx: &Expr, wx: &Expr) -> (r: Option<Expr>)
    ensures
        match r {
            Some(x) => rewrite_mingle(vx@, wx@) == Some(x@),
            None => rewrite_mingle(vx@, wx@) is None,
        },
{
    proof {
        reveal_with_fuel(expr_view, 3);
    }
    if is_not_equal(vx) && is_not_equal(wx) {
        Some(
            Expr::RsOr(
                Box::new(Expr::RsLshift(Box::new(vx.dup()), n(1))),
                Box::new(wx.dup()),
            ),
        )
    } else {
        mingle_halves_rewrite(vx, wx)
    }
}

fn xor_over_mingle_with(vx: &Expr, w: u32) -> (r: Option<&Expr>)
    ensures
        match r {
            Some(x) => xor_arg(vx@) is Some && mingle_with(xor_arg(vx@).unwrap(), w) == Some(x@),
            None => !(xor_arg(vx@) is Some && mingle_with(xor_arg(vx@).unwrap(), w) is Some),
        },
{
    match vx {
        Expr::Xor(_, a) => mingle_with_parts(a, w),
        _ => None,
    }
}

fn rs_and_repeats(vx: &Expr, wx: &Expr) -> (r: bool)
    ensures
        r == (rs_and_right(vx@) == Some(wx@)),
{
    match vx {
        Expr::RsAnd(_, b) => b.same(wx),
        _ => false,
    }
}

fn select_self_parts(vx: &Expr) -> (r: Option<&Expr>)
    ensures
        match r {
            Some(x) => select_self(vx@) == Some(x@),
            None => select_self(vx@) is None,
        },
{
    match vx {
        Expr::Select(a, b) => if a.same(b) {
            Some(&**a)
        } else {
            None
        },
        _ => None,
    }
}

fn rs_and_rewrite(vx: &Expr, wx: &Expr) -> (r: Option<Expr>)
    ensures
        match r {
            Some(x) => rewrite_rs_and(vx@, wx@) == Some(x@),
            None => rewrite_rs_and(vx@, wx@) is None,
        },
{
    if is_not_equal(vx) && is_literal(wx, 1) {
        return Some(vx.dup());
    }
    if rs_and_repeats(vx, wx) {
        return Some(vx.dup());
    }
    if is_literal(wx, 1) {
        match unary_of_mingle_parts(vx) {
            Some((op, m1, m2)) => {
                return Some(rs_make(op, low_bit_of(m1), low_bit_of(m2)));
            },
            None => {},
        }
    }
    if is_literal(wx, 0xffff_ffff) {
        return Some(vx.dup());
    }
    if is_literal(wx, 3) {
        match xor_over_mingle_with(vx, 2) {
            Some(mx) => {
                return Some(Expr::RsMinus(n(2), Box::new(low_bit_of(mx))));
            },
            None => {},
        }
        match xor_over_mingle_with(vx, 1) {
            Some(mx) => {
                return Some(Expr::RsPlus(n(1), Box::new(low_bit_of(mx))));
            },
            None => {},
        }
    }
    if is_literal(wx, 1) {
        match select_self_parts(vx) {
            Some(sx) => {
                return Some(Expr::RsNotEqual(Box::new(sx.dup()), n(0)));
            },
            None => {},
        }
    }
    None
}

fn rs_xor_rewrite(vx: &Expr, wx: &Expr) -> (r: Option<Expr>)
    ensures
        match r {
            Some(x) => rewrite_rs_xor(vx@, wx@) == Some(x@),
            None => rewrite_rs_xor(vx@, wx@) is None,
        },
{
    if is_literal(wx, 0xffff_ffff) {
        Some(Expr::RsNot(Box::new(vx.dup())))
    } else if is_literal(vx, 0xffff_ffff) {
        Some(Expr::RsNot(Box::new(wx.dup())))
    } else {
        None
    }
}

impl Optimizer {
    /// Rewrites an expression: the operands first, then the node, then what
    /// replaces the node.
    pub fn opt_expr(expr: &mut Expr)
        ensures
            final(expr)@ == opt_spec(old(expr)@),
            weight(final(expr)@) <= weight(old(expr)@),
        decreases weight(old(expr)@),
    {
        let mut result: Option<Expr> = None;
        match expr {
            Expr::Select(vx, wx) => {
                Optimizer::opt_expr(vx);
                Optimizer::opt_expr(wx);
                result = select_rewrite(vx, wx);
                proof {
                    lemma_rewrite_select_weight(vx@, wx@);
                }
            },
            Expr::Mingle(vx, wx) => {
                Optimizer::opt_expr(vx);
                Optimizer::opt_expr(wx);
                result = mingle_rewrite(vx, wx);
                proof {
                    lemma_rewrite_mingle_weight(vx@, wx@);
                }
            },
            Expr::And(_, vx) => {
                Optimizer::opt_expr(vx);
            },
            Expr::Or(_, vx) => {
                Optimizer::opt_expr(vx);
            },
            Expr::Xor(_, vx) => {
                Optimizer::opt_expr(vx);
            },
            Expr::RsNot(vx) => {
                Optimizer::opt_expr(vx);
            },
            Expr::RsAnd(vx, wx) => {
                Optimizer::opt_expr(vx);
                Optimizer::opt_expr(wx);
                result = rs_and_rewrite(vx, wx);
                proof {
                    lemma_rewrite_rs_and_weight(vx@, wx@);
                }
            },
            Expr::RsXor(vx, wx) => {
                Optimizer::opt_expr(vx);
                Optimizer::opt_expr(wx);
                result = rs_xor_rewrite(vx, wx);
                proof {
                    lemma_rewrite_rs_xor_weight(vx@, wx@);
                }
            },
            Expr::RsOr(vx, wx) => {
                Optimizer::opt_expr(vx);
                Optimizer::opt_expr(wx);
            },
            Expr::RsRshift(vx, wx) => {
                Optimizer::opt_expr(vx);
                Optimizer::opt_expr(wx);
            },
            Expr::RsLshift(vx, wx) => {
                Optimizer::opt_expr(vx);
                Optimizer::opt_expr(wx);
            },
            Expr::RsNotEqual(vx, wx) => {
                Optimizer::opt_expr(vx);
                Optimizer::opt_expr(wx);
            },
            Expr::RsMinus(vx, wx) => {
                Optimizer::opt_expr(vx);
                Optimizer::opt_expr(wx);
            },
            Expr::RsPlus(vx, wx) => {
                Optimizer::opt_expr(vx);
                Optimizer::opt_expr(wx);
            },
            Expr::Num(_, _) | Expr::Var(_) => {},
        }
        if let Some(mut r) = result {
            Optimizer::opt_expr(&mut r);
            *expr = r;
        }
    }
}

} // verus!
