//! A program in which no statement runs by chance runs in one way only.

use vstd::prelude::*;
use crate::ast::Program;
use crate::sem::{run, step, State};

verus! {

/// Whether every statement of the program runs whatever is drawn.
pub open spec fn certain(p: Program) -> bool {
    forall|i: int| 0 <= i < p.stmts.len() ==> (#[trigger] p.stmts[i]).props.chance >= 100
}

/// In a program in which no statement runs by chance, a step does not
/// depend on the draw.
pub proof fn lemma_step_certain(p: Program, input: Seq<u8>, st: State, g: bool, h: bool)
    requires
        certain(p),
    ensures
        step(p, input, st, g) == step(p, input, st, h),
{
    reveal(step);
    if st.pctr < p.stmts.len() {
        assert(p.stmts[st.pctr as int].props.chance >= 100);
    }
}

/// In a program in which no statement runs by chance, a run depends on
/// the number of the draws alone: it is determined by the program, the
/// input and the state that it starts in.
pub proof fn lemma_run_certain(
    p: Program,
    input: Seq<u8>,
    st: State,
    gates: Seq<bool>,
    others: Seq<bool>,
)
    requires
        certain(p),
        gates.len() == others.len(),
    ensures
        run(p, input, st, gates) == run(p, input, st, others),
    decreases gates.len(),
{
    if gates.len() > 0 {
        lemma_run_certain(p, input, st, gates.drop_last(), others.drop_last());
        let (s, o) = run(p, input, st, gates.drop_last());
        lemma_step_certain(p, input, s, gates.last(), others.last());
    }
}

/// A run that has ended stays as it is, however many draws follow.
pub proof fn lemma_run_ended(p: Program, input: Seq<u8>, st: State, gates: Seq<bool>, n: int)
    requires
        0 <= n <= gates.len(),
        !(run(p, input, st, gates.take(n)).1 is Running),
    ensures
        run(p, input, st, gates) == run(p, input, st, gates.take(n)),
    decreases gates.len(),
{
    if n == gates.len() {
        assert(gates.take(n) =~= gates);
    } else {
        assert(gates.drop_last().take(n) =~= gates.take(n));
        lemma_run_ended(p, input, st, gates.drop_last(), n);
    }
}

/// A program in which no statement runs by chance ends in one way only:
/// two runs that both end, on the same input from the same state, end in
/// the same state with the same outcome.
pub proof fn lemma_end_certain(
    p: Program,
    input: Seq<u8>,
    st: State,
    gates: Seq<bool>,
    others: Seq<bool>,
)
    requires
        certain(p),
        !(run(p, input, st, gates).1 is Running),
        !(run(p, input, st, others).1 is Running),
    ensures
        run(p, input, st, gates) == run(p, input, st, others),
{
    if gates.len() <= others.len() {
        let n = gates.len() as int;
        lemma_run_certain(p, input, st, gates, others.take(n));
        lemma_run_ended(p, input, st, others, n);
    } else {
        let n = others.len() as int;
        lemma_run_certain(p, input, st, others, gates.take(n));
        lemma_run_ended(p, input, st, gates, n);
    }
}

} // verus!
