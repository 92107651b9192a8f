//! What holds of the variable store: STASH and RETRIEVE are a stack, and an
//! ignored variable keeps its value whatever is assigned to it.

use vstd::prelude::*;
use crate::ast::{ExprV, VarV};
use crate::sem::{
    assign, calculate, eval_expr, eval_subs, lookup, retrieve, set_rw, stash, stashed, State,
};
use crate::store::BindV;
use crate::val::Val;
use crate::valid::{var_ok, Sizes};

verus! {

/// The cell after it has taken each of the states in turn and was stashed
/// in each.
pub open spec fn stash_each<V>(c: BindV<V>, states: Seq<(V, bool)>) -> BindV<V>
    decreases states.len(),
{
    if states.len() == 0 {
        c
    } else {
        let d = stash_each(c, states.drop_last());
        (BindV { val: states.last().0, rw: states.last().1, stack: d.stack }).stash()
    }
}

/// The cell after `k` times RETRIEVE.
pub open spec fn retrieve_times<V>(c: BindV<V>, k: nat) -> BindV<V>
    decreases k,
{
    if k == 0 {
        c
    } else {
        retrieve_times(c, (k - 1) as nat).retrieve()
    }
}

/// RETRIEVE undoes STASH: the cell is as it was, with what it had stashed
/// before.
pub proof fn lemma_stash_retrieve<V>(c: BindV<V>)
    ensures
        c.stash().retrieve() == c,
{
    assert(c.stash().stack.drop_last() =~= c.stack);
}

/// A cell that was stashed in each of some states has them on its stack
/// in that order, above what it had stashed before.
pub proof fn lemma_stash_each<V>(c: BindV<V>, states: Seq<(V, bool)>)
    ensures
        stash_each(c, states).stack == c.stack + states,
    decreases states.len(),
{
    if states.len() == 0 {
        assert(c.stack + states =~= c.stack);
    } else {
        lemma_stash_each(c, states.drop_last());
        assert((c.stack + states.drop_last()).push(states.last()) =~= c.stack + states);
    }
}

/// `k` times RETRIEVE give the `k`-th state from the top of the stack and
/// leave what lies under it.
pub proof fn lemma_retrieve_times<V>(c: BindV<V>, k: nat)
    requires
        1 <= k <= c.stack.len(),
    ensures
        retrieve_times(c, k).val == c.stack[c.stack.len() - k].0,
        retrieve_times(c, k).rw == c.stack[c.stack.len() - k].1,
        retrieve_times(c, k).stack == c.stack.take(c.stack.len() - k),
    decreases k,
{
    if k == 1 {
        assert(retrieve_times(c, 0) == c);
        assert(c.stack.drop_last() =~= c.stack.take(c.stack.len() - 1));
    } else {
        lemma_retrieve_times(c, (k - 1) as nat);
        let d = retrieve_times(c, (k - 1) as nat);
        assert(d.stack.drop_last() =~= c.stack.take(c.stack.len() - k));
    }
}

/// STASH and RETRIEVE are last in, first out: after a cell was stashed in
/// each of `n` states, the `k`-th RETRIEVE restores the `k`-th state from
/// the last, value and write gate, and `n` times RETRIEVE leave the stack
/// as it was before.
pub proof fn lemma_lifo<V>(c: BindV<V>, states: Seq<(V, bool)>, k: nat)
    requires
        1 <= k <= states.len(),
    ensures
        retrieve_times(stash_each(c, states), k).val == states[states.len() - k].0,
        retrieve_times(stash_each(c, states), k).rw == states[states.len() - k].1,
        retrieve_times(stash_each(c, states), k).stack == c.stack + states.take(
            states.len() - k,
        ),
{
    let d = stash_each(c, states);
    lemma_stash_each(c, states);
    lemma_retrieve_times(d, k);
    assert(d.stack.take(d.stack.len() - k) =~= c.stack + states.take(states.len() - k));
}

/// Whether the variable has a cell in the state.
pub open spec fn has_cell(st: State, v: VarV) -> bool {
    match v {
        VarV::I16(n) => n < st.spot.len(),
        VarV::I32(n) => n < st.twospot.len(),
        VarV::A16(n, _) => n < st.tail.len(),
        VarV::A32(n, _) => n < st.hybrid.len(),
    }
}

/// RETRIEVE of a variable undoes its STASH: the state is as it was.
pub proof fn lemma_state_stash_retrieve(st: State, v: VarV)
    requires
        has_cell(st, v),
    ensures
        stashed(stash(st, v), v) > 0,
        retrieve(stash(st, v), v) == st,
{
    match v {
        VarV::I16(n) => {
            lemma_stash_retrieve(st.spot[n as int]);
            assert(retrieve(stash(st, v), v).spot =~= st.spot);
        },
        VarV::I32(n) => {
            lemma_stash_retrieve(st.twospot[n as int]);
            assert(retrieve(stash(st, v), v).twospot =~= st.twospot);
        },
        VarV::A16(n, _) => {
            lemma_stash_retrieve(st.tail[n as int]);
            assert(retrieve(stash(st, v), v).tail =~= st.tail);
        },
        VarV::A32(n, _) => {
            lemma_stash_retrieve(st.hybrid[n as int]);
            assert(retrieve(stash(st, v), v).hybrid =~= st.hybrid);
        },
    }
}

/// Whether two states hold the same values in their variables, whatever
/// they have stashed or ignored.
pub open spec fn same_values(a: State, b: State) -> bool {
    &&& a.spot.len() == b.spot.len()
    &&& a.twospot.len() == b.twospot.len()
    &&& a.tail.len() == b.tail.len()
    &&& a.hybrid.len() == b.hybrid.len()
    &&& forall|i: int| 0 <= i < a.spot.len() ==> (#[trigger] a.spot[i]).val == b.spot[i].val
    &&& forall|i: int|
        0 <= i < a.twospot.len() ==> (#[trigger] a.twospot[i]).val == b.twospot[i].val
    &&& forall|i: int| 0 <= i < a.tail.len() ==> (#[trigger] a.tail[i]).val == b.tail[i].val
    &&& forall|i: int| 0 <= i < a.hybrid.len() ==> (#[trigger] a.hybrid[i]).val == b.hybrid[i].val
}

/// The value of an expression depends on the values of the variables
/// alone.
pub proof fn lemma_eval_same_values(a: State, b: State, e: ExprV, z: Sizes)
    requires
        same_values(a, b),
        fits(a, z),
        crate::valid::expr_ok(e, z),
    ensures
        eval_expr(a, e) == eval_expr(b, e),
    decreases e, 0nat,
{
    match e {
        ExprV::Num(_, _) => {},
        ExprV::Var(v) => lemma_lookup_same_values(a, b, v, z),
        ExprV::Mingle(x, y) => {
            lemma_eval_same_values(a, b, *x, z);
            lemma_eval_same_values(a, b, *y, z);
        },
        ExprV::Select(x, y) => {
            lemma_eval_same_values(a, b, *x, z);
            lemma_eval_same_values(a, b, *y, z);
        },
        ExprV::And(_, x) => lemma_eval_same_values(a, b, *x, z),
        ExprV::Or(_, x) => lemma_eval_same_values(a, b, *x, z),
        ExprV::Xor(_, x) => lemma_eval_same_values(a, b, *x, z),
        ExprV::RsAnd(x, y) => {
            lemma_eval_same_values(a, b, *x, z);
            lemma_eval_same_values(a, b, *y, z);
        },
        ExprV::RsOr(x, y) => {
            lemma_eval_same_values(a, b, *x, z);
            lemma_eval_same_values(a, b, *y, z);
        },
        ExprV::RsXor(x, y) => {
            lemma_eval_same_values(a, b, *x, z);
            lemma_eval_same_values(a, b, *y, z);
        },
        ExprV::RsNot(x) => lemma_eval_same_values(a, b, *x, z),
        ExprV::RsRshift(x, y) => {
            lemma_eval_same_values(a, b, *x, z);
            lemma_eval_same_values(a, b, *y, z);
        },
        ExprV::RsLshift(x, y) => {
            lemma_eval_same_values(a, b, *x, z);
            lemma_eval_same_values(a, b, *y, z);
        },
        ExprV::RsPlus(x, y) => {
            lemma_eval_same_values(a, b, *x, z);
            lemma_eval_same_values(a, b, *y, z);
        },
        ExprV::RsMinus(x, y) => {
            lemma_eval_same_values(a, b, *x, z);
            lemma_eval_same_values(a, b, *y, z);
        },
        ExprV::RsNotEqual(x, y) => {
            lemma_eval_same_values(a, b, *x, z);
            lemma_eval_same_values(a, b, *y, z);
        },
    }
}

/// Whether a state has a cell for every variable of the given sizes.
pub open spec fn fits(st: State, z: Sizes) -> bool {
    &&& st.spot.len() == z.spot
    &&& st.twospot.len() == z.twospot
    &&& st.tail.len() == z.tail
    &&& st.hybrid.len() == z.hybrid
}

/// The values of a list of expressions depend on the values of the
/// variables alone.
pub proof fn lemma_subs_same_values(a: State, b: State, subs: Seq<ExprV>, n: nat, z: Sizes)
    requires
        same_values(a, b),
        fits(a, z),
        crate::valid::exprs_ok(subs, z),
    ensures
        eval_subs(a, subs, n) == eval_subs(b, subs, n),
    decreases subs, n,
{
    if n > 0 && n <= subs.len() {
        lemma_subs_same_values(a, b, subs, (n - 1) as nat, z);
        lemma_eval_same_values(a, b, subs[n - 1], z);
    }
}

/// The value of a variable depends on the values of the variables alone.
pub proof fn lemma_lookup_same_values(a: State, b: State, v: VarV, z: Sizes)
    requires
        same_values(a, b),
        fits(a, z),
        var_ok(v, z),
    ensures
        lookup(a, v) == lookup(b, v),
    decreases v, 0nat,
{
    match v {
        VarV::I16(n) => {
            assert(a.spot[n as int].val == b.spot[n as int].val);
        },
        VarV::I32(n) => {
            assert(a.twospot[n as int].val == b.twospot[n as int].val);
        },
        VarV::A16(n, subs) => {
            lemma_subs_same_values(a, b, subs, subs.len(), z);
            assert(a.tail[n as int].val == b.tail[n as int].val);
        },
        VarV::A32(n, subs) => {
            lemma_subs_same_values(a, b, subs, subs.len(), z);
            assert(a.hybrid[n as int].val == b.hybrid[n as int].val);
        },
    }
}

/// IGNORE and REMEMBER change no value.
pub proof fn lemma_set_rw_same_values(st: State, v: VarV, rw: bool)
    requires
        has_cell(st, v),
    ensures
        same_values(st, set_rw(st, v, rw)),
{
}

/// IGNORE gates assignments: once a variable is ignored, an assignment to
/// it, and so a calculation into it, leaves the state as it is, and a
/// lookup gives the value that the variable had before it was ignored.
pub proof fn lemma_ignore_gates(st: State, v: VarV, x: Val, e: ExprV, z: Sizes)
    requires
        fits(st, z),
        var_ok(v, z),
    ensures
        assign(set_rw(st, v, false), v, x).0 == set_rw(st, v, false),
        calculate(set_rw(st, v, false), v, e).0 == set_rw(st, v, false),
        lookup(calculate(set_rw(st, v, false), v, e).0, v) == lookup(st, v),
{
    let s1 = set_rw(st, v, false);
    match v {
        VarV::I16(n) => {
            assert(assign(s1, v, x).0.spot =~= s1.spot);
        },
        VarV::I32(n) => {
            assert(assign(s1, v, x).0.twospot =~= s1.twospot);
        },
        VarV::A16(n, subs) => {
            assert(assign(s1, v, x).0.tail =~= s1.tail);
        },
        VarV::A32(n, subs) => {
            assert(assign(s1, v, x).0.hybrid =~= s1.hybrid);
        },
    }
    match eval_expr(s1, e) {
        Ok(y) => {
            match v {
                VarV::I16(n) => {
                    assert(assign(s1, v, y).0.spot =~= s1.spot);
                },
                VarV::I32(n) => {
                    assert(assign(s1, v, y).0.twospot =~= s1.twospot);
                },
                VarV::A16(n, subs) => {
                    assert(assign(s1, v, y).0.tail =~= s1.tail);
                },
                VarV::A32(n, subs) => {
                    assert(assign(s1, v, y).0.hybrid =~= s1.hybrid);
                },
            }
        },
        Err(_) => {},
    }
    lemma_set_rw_same_values(st, v, false);
    lemma_lookup_same_values(st, s1, v, z);
}

} // verus!
