//! The passes of the optimizer keep what a program does: constant folding,
//! the abstain check and the variable check leave every run as it was,
//! step for step.

use vstd::prelude::*;
use crate::ast::{Abstain, ExprV, Program, StmtBody};
use crate::machine::initial;
use crate::marks::abstain_checked;
use crate::opt::fold_spec;
use crate::passes::{folded, lemma_fold_ok};
use crate::sem::{abstain_all, eval_expr, exec_stmt, run, step, State};
use crate::valid::{expr_ok, Sizes};
use crate::varmarks::var_checked;

verus! {

/// Constant folding keeps the value of an expression, and the error where
/// it has none, in every state.
pub proof fn lemma_fold_sound(st: State, e: ExprV, z: Sizes)
    requires
        expr_ok(e, z),
    ensures
        eval_expr(st, fold_spec(e)) == eval_expr(st, e),
    decreases e,
{
    match e {
        ExprV::Mingle(a, b) => {
            lemma_fold_sound(st, *a, z);
            lemma_fold_sound(st, *b, z);
            lemma_fold_ok(*a, z);
            lemma_fold_ok(*b, z);
        },
        ExprV::Select(a, b) => {
            lemma_fold_sound(st, *a, z);
            lemma_fold_sound(st, *b, z);
            lemma_fold_ok(*a, z);
            lemma_fold_ok(*b, z);
        },
        ExprV::And(_, a) => {
            lemma_fold_sound(st, *a, z);
            lemma_fold_ok(*a, z);
        },
        ExprV::Or(_, a) => {
            lemma_fold_sound(st, *a, z);
            lemma_fold_ok(*a, z);
        },
        ExprV::Xor(_, a) => {
            lemma_fold_sound(st, *a, z);
            lemma_fold_ok(*a, z);
        },
        _ => {},
    }
}

/// Whether two programs have the same frame: the same labels and statement
/// kinds, as many variables of each class, and statement for statement the
/// same properties and the same COME FROM.
pub open spec fn same_frame(p: Program, r: Program) -> bool {
    &&& r.labels == p.labels
    &&& r.stmt_types == p.stmt_types
    &&& r.sizes() == p.sizes()
    &&& r.stmts.len() == p.stmts.len()
    &&& forall|i: int|
        0 <= i < p.stmts.len() ==> {
            &&& (#[trigger] r.stmts[i]).props == p.stmts[i].props
            &&& r.stmts[i].comefrom == p.stmts[i].comefrom
        }
}

/// Whether the statement `i` does in `r` what it does in `p`, in every
/// state and on every input.
pub open spec fn same_effect(p: Program, r: Program, i: int) -> bool {
    forall|input: Seq<u8>, st: State| #[trigger]
        exec_stmt(r, input, st, r.stmts[i].body) == exec_stmt(p, input, st, p.stmts[i].body)
}

/// Whether every statement does in `r` what it does in `p`.
pub open spec fn same_effects(p: Program, r: Program) -> bool {
    forall|i: int| 0 <= i < p.stmts.len() ==> #[trigger] same_effect(p, r, i)
}

/// Programs with the same frame abstain alike.
pub proof fn lemma_abstain_same_frame(
    p: Program,
    r: Program,
    flags: Seq<bool>,
    ts: Seq<Abstain>,
    flag: bool,
    n: nat,
)
    requires
        r.labels == p.labels,
        r.stmt_types == p.stmt_types,
    ensures
        abstain_all(r, flags, ts, flag, n) == abstain_all(p, flags, ts, flag, n),
    decreases n,
{
    if n > 0 {
        lemma_abstain_same_frame(p, r, flags, ts, flag, (n - 1) as nat);
    }
}

/// A statement does the same in programs with the same frame.
pub proof fn lemma_exec_same_frame(p: Program, r: Program, input: Seq<u8>, st: State, b: StmtBody)
    requires
        r.labels == p.labels,
        r.stmt_types == p.stmt_types,
    ensures
        exec_stmt(r, input, st, b) == exec_stmt(p, input, st, b),
{
    reveal(exec_stmt);
    match b {
        StmtBody::Abstain(ts) => {
            lemma_abstain_same_frame(p, r, st.abstain, ts@, true, ts.len() as nat);
        },
        StmtBody::Reinstate(ts) => {
            lemma_abstain_same_frame(p, r, st.abstain, ts@, false, ts.len() as nat);
        },
        _ => {},
    }
}

/// Programs with the same frame whose statements do the same take the
/// same step from every state.
pub proof fn lemma_step_same(p: Program, r: Program, input: Seq<u8>, st: State, gate: bool)
    requires
        p.stmts.len() > 0,
        same_frame(p, r),
        same_effects(p, r),
    ensures
        step(r, input, st, gate) == step(p, input, st, gate),
{
    reveal(step);
    if st.pctr < p.stmts.len() {
        let i = st.pctr as int;
        assert(same_effect(p, r, i));
        let s1 = State { stmt_ctr: (st.stmt_ctr + 1) as usize, ..st };
        assert(exec_stmt(r, input, s1, r.stmts[i].body) == exec_stmt(
            p,
            input,
            s1,
            p.stmts[i].body,
        ));
        assert(r.stmts[i].props == p.stmts[i].props);
        let (s2, res) = exec_stmt(p, input, s1, p.stmts[i].body);
        if s2.pctr < p.stmts.len() {
            assert(r.stmts[s2.pctr as int].comefrom == p.stmts[s2.pctr as int].comefrom);
        }
        match res {
            Ok(crate::sem::StmtRes::Back(t)) => {
                if t < p.stmts.len() {
                    assert(r.stmts[t as int].comefrom == p.stmts[t as int].comefrom);
                }
            },
            _ => {},
        }
        assert(r.stmts[i].comefrom == p.stmts[i].comefrom);
    } else {
        assert(r.stmts@.last().props == p.stmts@.last().props);
    }
}

/// Programs with the same frame whose statements do the same run alike:
/// under the same draws they reach the same state with the same outcome.
pub proof fn lemma_run_same(p: Program, r: Program, input: Seq<u8>, st: State, gates: Seq<bool>)
    requires
        p.stmts.len() > 0,
        same_frame(p, r),
        same_effects(p, r),
    ensures
        run(r, input, st, gates) == run(p, input, st, gates),
    decreases gates.len(),
{
    if gates.len() > 0 {
        lemma_run_same(p, r, input, st, gates.drop_last());
        let (s, o) = run(p, input, st, gates.drop_last());
        lemma_step_same(p, r, input, s, gates.last());
    }
}

/// Programs with the same frame start in the same state.
pub proof fn lemma_initial_same(p: Program, r: Program)
    requires
        same_frame(p, r),
    ensures
        initial(r) == initial(p),
{
    assert(initial(r).abstain =~= initial(p).abstain);
    assert(initial(r).spot =~= initial(p).spot);
    assert(initial(r).twospot =~= initial(p).twospot);
    assert(initial(r).tail =~= initial(p).tail);
    assert(initial(r).hybrid =~= initial(p).hybrid);
}

/// Constant folding is sound: the folded program runs as the program
/// does, from every state and under every sequence of draws, and so ends
/// with the same output, the same variables and the same count.
pub proof fn lemma_fold_pass_sound(
    p: Program,
    r: Program,
    input: Seq<u8>,
    st: State,
    gates: Seq<bool>,
)
    requires
        p.wf(),
        folded(p, r),
    ensures
        initial(r) == initial(p),
        run(r, input, st, gates) == run(p, input, st, gates),
{
    assert(same_frame(p, r));
    assert forall|i: int| 0 <= i < p.stmts.len() implies #[trigger] same_effect(p, r, i) by {
        assert(p.stmt_ok(p.stmts[i]));
        assert(crate::passes::stmt_mapped(p.stmts[i], r.stmts[i], crate::passes::Pass::Fold));
        assert forall|input: Seq<u8>, st: State| #[trigger]
            exec_stmt(r, input, st, r.stmts[i].body) == exec_stmt(
                p,
                input,
                st,
                p.stmts[i].body,
            ) by {
            lemma_exec_same_frame(p, r, input, st, r.stmts[i].body);
            reveal(exec_stmt);
            match p.stmts[i].body {
                StmtBody::Calc(_, e) => lemma_fold_sound(st, e@, p.sizes()),
                StmtBody::Resume(e) => lemma_fold_sound(st, e@, p.sizes()),
                StmtBody::Forget(e) => lemma_fold_sound(st, e@, p.sizes()),
                _ => {},
            }
        }
    }
    lemma_run_same(p, r, input, st, gates);
    lemma_initial_same(p, r);
}

/// The abstain check is sound: the marked program runs as the program
/// does.
pub proof fn lemma_abstain_pass_sound(
    p: Program,
    r: Program,
    input: Seq<u8>,
    st: State,
    gates: Seq<bool>,
)
    requires
        p.wf(),
        abstain_checked(p, r),
    ensures
        initial(r) == initial(p),
        run(r, input, st, gates) == run(p, input, st, gates),
{
    assert(same_frame(p, r));
    assert forall|i: int| 0 <= i < p.stmts.len() implies #[trigger] same_effect(p, r, i) by {
        assert(r.stmts[i].body == p.stmts[i].body);
        assert forall|input: Seq<u8>, st: State| #[trigger]
            exec_stmt(r, input, st, r.stmts[i].body) == exec_stmt(
                p,
                input,
                st,
                p.stmts[i].body,
            ) by {
            lemma_exec_same_frame(p, r, input, st, r.stmts[i].body);
        }
    }
    lemma_run_same(p, r, input, st, gates);
    lemma_initial_same(p, r);
}

/// The variable check is sound: the marked program runs as the program
/// does.
pub proof fn lemma_var_pass_sound(
    p: Program,
    r: Program,
    input: Seq<u8>,
    st: State,
    gates: Seq<bool>,
)
    requires
        p.wf(),
        var_checked(p, r),
    ensures
        initial(r) == initial(p),
        run(r, input, st, gates) == run(p, input, st, gates),
{
    assert(same_frame(p, r));
    assert forall|i: int| 0 <= i < p.stmts.len() implies #[trigger] same_effect(p, r, i) by {
        assert forall|input: Seq<u8>, st: State| #[trigger]
            exec_stmt(r, input, st, r.stmts[i].body) == exec_stmt(
                p,
                input,
                st,
                p.stmts[i].body,
            ) by {
            lemma_exec_same_frame(p, r, input, st, r.stmts[i].body);
        }
    }
    lemma_run_same(p, r, input, st, gates);
    lemma_initial_same(p, r);
}

} // verus!
