//! The expression pass keeps the value of every expression on which it is
//! steady, and so what every run does that meets only such expressions.

use vstd::prelude::*;
use crate::andrules::lemma_rewrite_rs_and_sound;
use crate::ast::{BitOp, ExprV, Program, StmtBody};
use crate::err::ErrCode;
use crate::machine::initial;
use crate::opt::{
    lemma_rewrite_mingle_weight, lemma_rewrite_rs_and_weight, lemma_rewrite_rs_xor_weight,
    lemma_rewrite_select_weight, opt_spec, rewrite_mingle, rewrite_rs_and, rewrite_rs_xor,
    rewrite_select, weight,
};
use crate::passes::{lemma_opt_ok, lemma_rewrite_ok, rewritten, stmt_mapped, Pass};
use crate::peephole::{
    agrees, halves_fit, lemma_rewrite_mingle_sound, lemma_rewrite_rs_xor_sound,
    lemma_rewrite_select_sound, literal_halves,
};
use crate::sem::{apply1, apply2, Bin, eval_expr, exec_stmt, run, State, step};
use crate::sound::{lemma_exec_same_frame, lemma_initial_same, same_frame};
use crate::val::Val;
use crate::valid::{expr_ok, Sizes};

verus! {

/// Whether two outcomes, where both are values, have the same width.
pub open spec fn same_width(a: Result<Val, ErrCode>, b: Result<Val, ErrCode>) -> bool {
    match (a, b) {
        (Ok(x), Ok(y)) => (x is I16) == (y is I16),
        _ => true,
    }
}

/// Whether the literals of two halves fit, where the operands of a MINGLE
/// are two halves against literals.
pub open spec fn halves_in_order(vx: ExprV, wx: ExprV) -> bool {
    match literal_halves(vx, wx) {
        Some((bn, dn)) => halves_fit(bn, dn),
        None => true,
    }
}

/// Whether the expression pass is steady on an expression in a state:
/// wherever a unary INTERCAL operator stands, the pass leaves the width of
/// its operand as it is, and wherever a MINGLE of two halves against
/// literals is replaced, the literals fit. The unary operators work at the
/// width of their operand, which the host operators do not keep; and the
/// literal that the pass puts together from two halves is the one above the
/// other, not their MINGLE.
pub open spec fn steady(st: State, e: ExprV) -> bool
    decreases weight(e),
{
    match e {
        ExprV::Num(_, _) => true,
        ExprV::Var(_) => true,
        ExprV::Select(a, b) => {
            &&& steady(st, *a)
            &&& steady(st, *b)
            &&& match rewrite_select(opt_spec(*a), opt_spec(*b)) {
                Some(r) => if weight(r) < weight(e) {
                    steady(st, r)
                } else {
                    true
                },
                None => true,
            }
        },
        ExprV::Mingle(a, b) => {
            &&& steady(st, *a)
            &&& steady(st, *b)
            &&& halves_in_order(opt_spec(*a), opt_spec(*b))
            &&& match rewrite_mingle(opt_spec(*a), opt_spec(*b)) {
                Some(r) => if weight(r) < weight(e) {
                    steady(st, r)
                } else {
                    true
                },
                None => true,
            }
        },
        ExprV::RsAnd(a, b) => {
            &&& steady(st, *a)
            &&& steady(st, *b)
            &&& match rewrite_rs_and(opt_spec(*a), opt_spec(*b)) {
                Some(r) => if weight(r) < weight(e) {
                    steady(st, r)
                } else {
                    true
                },
                None => true,
            }
        },
        ExprV::RsXor(a, b) => {
            &&& steady(st, *a)
            &&& steady(st, *b)
            &&& match rewrite_rs_xor(opt_spec(*a), opt_spec(*b)) {
                Some(r) => if weight(r) < weight(e) {
                    steady(st, r)
                } else {
                    true
                },
                None => true,
            }
        },
        ExprV::And(_, a) => steady(st, *a) && same_width(
            eval_expr(st, *a),
            eval_expr(st, opt_spec(*a)),
        ),
        ExprV::Or(_, a) => steady(st, *a) && same_width(
            eval_expr(st, *a),
            eval_expr(st, opt_spec(*a)),
        ),
        ExprV::Xor(_, a) => steady(st, *a) && same_width(
            eval_expr(st, *a),
            eval_expr(st, opt_spec(*a)),
        ),
        ExprV::RsNot(a) => steady(st, *a),
        ExprV::RsOr(a, b) => steady(st, *a) && steady(st, *b),
        ExprV::RsRshift(a, b) => steady(st, *a) && steady(st, *b),
        ExprV::RsLshift(a, b) => steady(st, *a) && steady(st, *b),
        ExprV::RsPlus(a, b) => steady(st, *a) && steady(st, *b),
        ExprV::RsMinus(a, b) => steady(st, *a) && steady(st, *b),
        ExprV::RsNotEqual(a, b) => steady(st, *a) && steady(st, *b),
    }
}

/// An operator of two operands gives the same for operands that stand in
/// for its operands.
pub proof fn lemma_apply2_agrees(
    op: Bin,
    a: Result<Val, ErrCode>,
    b: Result<Val, ErrCode>,
    a2: Result<Val, ErrCode>,
    b2: Result<Val, ErrCode>,
)
    requires
        agrees(a, a2),
        agrees(b, b2),
    ensures
        agrees(apply2(op, a, b), apply2(op, a2, b2)),
{
}

/// The expression pass makes no expression heavier. So every replacement,
/// which weighs less than the node that it replaces, weighs less than the
/// expression that the node came from, and the pass comes to an end.
pub proof fn lemma_opt_weight(e: ExprV)
    ensures
        weight(opt_spec(e)) <= weight(e),
    decreases weight(e),
{
    match e {
        ExprV::Num(_, _) => {},
        ExprV::Var(_) => {},
        ExprV::Select(a, b) => {
            lemma_opt_weight(*a);
            lemma_opt_weight(*b);
            lemma_rewrite_select_weight(opt_spec(*a), opt_spec(*b));
            match rewrite_select(opt_spec(*a), opt_spec(*b)) {
                Some(r) => lemma_opt_weight(r),
                None => {},
            }
        },
        ExprV::Mingle(a, b) => {
            lemma_opt_weight(*a);
            lemma_opt_weight(*b);
            lemma_rewrite_mingle_weight(opt_spec(*a), opt_spec(*b));
            match rewrite_mingle(opt_spec(*a), opt_spec(*b)) {
                Some(r) => lemma_opt_weight(r),
                None => {},
            }
        },
        ExprV::RsAnd(a, b) => {
            lemma_opt_weight(*a);
            lemma_opt_weight(*b);
            lemma_rewrite_rs_and_weight(opt_spec(*a), opt_spec(*b));
            match rewrite_rs_and(opt_spec(*a), opt_spec(*b)) {
                Some(r) => lemma_opt_weight(r),
                None => {},
            }
        },
        ExprV::RsXor(a, b) => {
            lemma_opt_weight(*a);
            lemma_opt_weight(*b);
            lemma_rewrite_rs_xor_weight(opt_spec(*a), opt_spec(*b));
            match rewrite_rs_xor(opt_spec(*a), opt_spec(*b)) {
                Some(r) => lemma_opt_weight(r),
                None => {},
            }
        },
        ExprV::And(_, a) => lemma_opt_weight(*a),
        ExprV::Or(_, a) => lemma_opt_weight(*a),
        ExprV::Xor(_, a) => lemma_opt_weight(*a),
        ExprV::RsNot(a) => lemma_opt_weight(*a),
        ExprV::RsOr(a, b) => {
            lemma_opt_weight(*a);
            lemma_opt_weight(*b);
        },
        ExprV::RsRshift(a, b) => {
            lemma_opt_weight(*a);
            lemma_opt_weight(*b);
        },
        ExprV::RsLshift(a, b) => {
            lemma_opt_weight(*a);
            lemma_opt_weight(*b);
        },
        ExprV::RsPlus(a, b) => {
            lemma_opt_weight(*a);
            lemma_opt_weight(*b);
        },
        ExprV::RsMinus(a, b) => {
            lemma_opt_weight(*a);
            lemma_opt_weight(*b);
        },
        ExprV::RsNotEqual(a, b) => {
            lemma_opt_weight(*a);
            lemma_opt_weight(*b);
        },
    }
}

/// A unary operator gives the same for an operand of the same value and
/// width.
proof fn lemma_apply1_agrees(op: BitOp, a: Result<Val, ErrCode>, a2: Result<Val, ErrCode>)
    requires
        agrees(a, a2),
        same_width(a, a2),
    ensures
        agrees(apply1(op, a), apply1(op, a2)),
{
    match (a, a2) {
        (Ok(x), Ok(y)) => {
            assert(x == y);
        },
        _ => {},
    }
}

/// What is left to show at a node of two operands once the operands are
/// done: the node over the new operands stands in for the node, and so
/// does what the pass makes of it.
proof fn lemma_settle(st: State, e: ExprV, node: ExprV, rewritten: Option<ExprV>)
    requires
        agrees(eval_expr(st, e), eval_expr(st, node)),
        match rewritten {
            Some(r) => {
                &&& agrees(eval_expr(st, node), eval_expr(st, r))
                &&& weight(r) < weight(e) ==> agrees(eval_expr(st, r), eval_expr(st, opt_spec(r)))
            },
            None => true,
        },
    ensures
        agrees(
            eval_expr(st, e),
            eval_expr(
                st,
                match rewritten {
                    Some(r) => if weight(r) < weight(e) {
                        opt_spec(r)
                    } else {
                        r
                    },
                    None => node,
                },
            ),
        ),
{
}

/// The expression pass is sound: on an expression on which it is steady,
/// what it makes of the expression has the value of the expression,
/// wherever the expression has one.
pub proof fn lemma_opt_sound(st: State, e: ExprV, z: Sizes)
    requires
        expr_ok(e, z),
        steady(st, e),
    ensures
        agrees(eval_expr(st, e), eval_expr(st, opt_spec(e))),
    decreases weight(e),
{
    match e {
        ExprV::Num(_, _) => {},
        ExprV::Var(_) => {},
        ExprV::Select(a, b) => {
            let va = opt_spec(*a);
            let vb = opt_spec(*b);
            lemma_opt_sound(st, *a, z);
            lemma_opt_sound(st, *b, z);
            lemma_opt_ok(*a, z);
            lemma_opt_ok(*b, z);
            let node = ExprV::Select(Box::new(va), Box::new(vb));
            lemma_apply2_agrees(
                Bin::Select,
                eval_expr(st, *a),
                eval_expr(st, *b),
                eval_expr(st, va),
                eval_expr(st, vb),
            );
            let rw = rewrite_select(va, vb);
            match rw {
                Some(r) => {
                    lemma_rewrite_select_sound(st, va, vb, z);
                    lemma_rewrite_ok(va, vb, z);
                    if weight(r) < weight(e) {
                        lemma_opt_sound(st, r, z);
                    }
                },
                None => {},
            }
            lemma_settle(st, e, node, rw);
        },
        ExprV::Mingle(a, b) => {
            let va = opt_spec(*a);
            let vb = opt_spec(*b);
            lemma_opt_sound(st, *a, z);
            lemma_opt_sound(st, *b, z);
            lemma_opt_ok(*a, z);
            lemma_opt_ok(*b, z);
            let node = ExprV::Mingle(Box::new(va), Box::new(vb));
            lemma_apply2_agrees(
                Bin::Mingle,
                eval_expr(st, *a),
                eval_expr(st, *b),
                eval_expr(st, va),
                eval_expr(st, vb),
            );
            let rw = rewrite_mingle(va, vb);
            match rw {
                Some(r) => {
                    lemma_rewrite_mingle_sound(st, va, vb, z);
                    lemma_rewrite_ok(va, vb, z);
                    if weight(r) < weight(e) {
                        lemma_opt_sound(st, r, z);
                    }
                },
                None => {},
            }
            lemma_settle(st, e, node, rw);
        },
        ExprV::RsAnd(a, b) => {
            let va = opt_spec(*a);
            let vb = opt_spec(*b);
            lemma_opt_sound(st, *a, z);
            lemma_opt_sound(st, *b, z);
            lemma_opt_ok(*a, z);
            lemma_opt_ok(*b, z);
            let node = ExprV::RsAnd(Box::new(va), Box::new(vb));
            lemma_apply2_agrees(
                Bin::And,
                eval_expr(st, *a),
                eval_expr(st, *b),
                eval_expr(st, va),
                eval_expr(st, vb),
            );
            let rw = rewrite_rs_and(va, vb);
            match rw {
                Some(r) => {
                    lemma_rewrite_rs_and_sound(st, va, vb, z);
                    lemma_rewrite_ok(va, vb, z);
                    if weight(r) < weight(e) {
                        lemma_opt_sound(st, r, z);
                    }
                },
                None => {},
            }
            lemma_settle(st, e, node, rw);
        },
        ExprV::RsXor(a, b) => {
            let va = opt_spec(*a);
            let vb = opt_spec(*b);
            lemma_opt_sound(st, *a, z);
            lemma_opt_sound(st, *b, z);
            lemma_opt_ok(*a, z);
            lemma_opt_ok(*b, z);
            let node = ExprV::RsXor(Box::new(va), Box::new(vb));
            lemma_apply2_agrees(
                Bin::Xor,
                eval_expr(st, *a),
                eval_expr(st, *b),
                eval_expr(st, va),
                eval_expr(st, vb),
            );
            let rw = rewrite_rs_xor(va, vb);
            match rw {
                Some(r) => {
                    lemma_rewrite_rs_xor_sound(st, va, vb, z);
                    lemma_rewrite_ok(va, vb, z);
                    if weight(r) < weight(e) {
                        lemma_opt_sound(st, r, z);
                    }
                },
                None => {},
            }
            lemma_settle(st, e, node, rw);
        },
        ExprV::And(_, a) => {
            lemma_opt_sound(st, *a, z);
            lemma_apply1_agrees(BitOp::And, eval_expr(st, *a), eval_expr(st, opt_spec(*a)));
        },
        ExprV::Or(_, a) => {
            lemma_opt_sound(st, *a, z);
            lemma_apply1_agrees(BitOp::Or, eval_expr(st, *a), eval_expr(st, opt_spec(*a)));
        },
        ExprV::Xor(_, a) => {
            lemma_opt_sound(st, *a, z);
            lemma_apply1_agrees(BitOp::Xor, eval_expr(st, *a), eval_expr(st, opt_spec(*a)));
        },
        ExprV::RsNot(a) => {
            lemma_opt_sound(st, *a, z);
        },
        ExprV::RsOr(a, b) => {
            lemma_opt_sound(st, *a, z);
            lemma_opt_sound(st, *b, z);
        },
        ExprV::RsRshift(a, b) => {
            lemma_opt_sound(st, *a, z);
            lemma_opt_sound(st, *b, z);
        },
        ExprV::RsLshift(a, b) => {
            lemma_opt_sound(st, *a, z);
            lemma_opt_sound(st, *b, z);
        },
        ExprV::RsPlus(a, b) => {
            lemma_opt_sound(st, *a, z);
            lemma_opt_sound(st, *b, z);
        },
        ExprV::RsMinus(a, b) => {
            lemma_opt_sound(st, *a, z);
            lemma_opt_sound(st, *b, z);
        },
        ExprV::RsNotEqual(a, b) => {
            lemma_opt_sound(st, *a, z);
            lemma_opt_sound(st, *b, z);
        },
    }
}

/// Whether the expression of the statement `i`, if it computes with one,
/// has a value in the state and the expression pass is steady on it.
pub open spec fn stmt_steady(p: Program, st: State, i: int) -> bool {
    match p.stmts[i].body {
        StmtBody::Calc(_, e) => eval_expr(st, e@) is Ok && steady(st, e@),
        StmtBody::Resume(e) => eval_expr(st, e@) is Ok && steady(st, e@),
        StmtBody::Forget(e) => eval_expr(st, e@) is Ok && steady(st, e@),
        _ => true,
    }
}

/// The state in which the statement at the pointer is carried out.
pub open spec fn counted_state(st: State) -> State {
    State { stmt_ctr: (st.stmt_ctr + 1) as usize, ..st }
}

/// Whether a run meets only statements on which the expression pass is
/// steady.
pub open spec fn run_steady(p: Program, input: Seq<u8>, st: State, gates: Seq<bool>) -> bool
    decreases gates.len(),
{
    if gates.len() == 0 {
        true
    } else {
        let (s, o) = run(p, input, st, gates.drop_last());
        &&& run_steady(p, input, st, gates.drop_last())
        &&& (o is Running && s.pctr < p.stmts.len()) ==> stmt_steady(
            p,
            counted_state(s),
            s.pctr as int,
        )
    }
}

/// A statement on which the expression pass is steady does in the
/// rewritten program what it does in the program.
pub proof fn lemma_exec_rewritten(p: Program, r: Program, input: Seq<u8>, st: State, i: int)
    requires
        p.wf(),
        rewritten(p, r),
        0 <= i < p.stmts.len(),
        stmt_steady(p, st, i),
    ensures
        exec_stmt(r, input, st, r.stmts[i].body) == exec_stmt(p, input, st, p.stmts[i].body),
{
    assert(p.stmt_ok(p.stmts[i]));
    assert(stmt_mapped(p.stmts[i], r.stmts[i], Pass::Rewrite));
    lemma_exec_same_frame(p, r, input, st, r.stmts[i].body);
    reveal(exec_stmt);
    match p.stmts[i].body {
        StmtBody::Calc(_, e) => lemma_opt_sound(st, e@, p.sizes()),
        StmtBody::Resume(e) => lemma_opt_sound(st, e@, p.sizes()),
        StmtBody::Forget(e) => lemma_opt_sound(st, e@, p.sizes()),
        _ => {},
    }
}

/// From a state in which the expression pass is steady on the statement
/// at the pointer, the rewritten program takes the step that the program
/// takes.
pub proof fn lemma_step_rewritten(p: Program, r: Program, input: Seq<u8>, st: State, gate: bool)
    requires
        p.wf(),
        rewritten(p, r),
        st.pctr < p.stmts.len() ==> stmt_steady(p, counted_state(st), st.pctr as int),
    ensures
        step(r, input, st, gate) == step(p, input, st, gate),
{
    reveal(step);
    assert(same_frame(p, r));
    if st.pctr < p.stmts.len() {
        let i = st.pctr as int;
        lemma_exec_rewritten(p, r, input, counted_state(st), i);
        assert(r.stmts[i].props == p.stmts[i].props);
        assert(r.stmts[i].comefrom == p.stmts[i].comefrom);
        let (s2, res) = exec_stmt(p, input, counted_state(st), p.stmts[i].body);
        match res {
            Ok(crate::sem::StmtRes::Back(t)) => {
                if t < p.stmts.len() {
                    assert(r.stmts[t as int].comefrom == p.stmts[t as int].comefrom);
                }
            },
            _ => {},
        }
    } else {
        assert(r.stmts@.last().props == p.stmts@.last().props);
    }
}

/// The expression pass is sound: a run that meets only statements on
/// which the pass is steady goes in the rewritten program as in the
/// program, to the same state with the same outcome, and so with the same
/// output and the same variables.
pub proof fn lemma_rewrite_pass_sound(
    p: Program,
    r: Program,
    input: Seq<u8>,
    st: State,
    gates: Seq<bool>,
)
    requires
        p.wf(),
        rewritten(p, r),
        run_steady(p, input, st, gates),
    ensures
        initial(r) == initial(p),
        run(r, input, st, gates) == run(p, input, st, gates),
    decreases gates.len(),
{
    assert(same_frame(p, r));
    lemma_initial_same(p, r);
    if gates.len() > 0 {
        lemma_rewrite_pass_sound(p, r, input, st, gates.drop_last());
        let (s, o) = run(p, input, st, gates.drop_last());
        if o is Running {
            lemma_step_rewritten(p, r, input, s, gates.last());
        }
    }
}

} // verus!
