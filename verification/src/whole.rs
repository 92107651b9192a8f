//! The optimizer as a whole keeps what a program does.

use vstd::prelude::*;
use crate::ast::Program;
use crate::machine::initial;
use crate::marks::abstain_checked;
use crate::passes::{folded, lemma_mapped_wf, rewritten, Pass};
use crate::sem::{run, State};
use crate::sound::{lemma_abstain_pass_sound, lemma_fold_pass_sound, lemma_var_pass_sound};
use crate::steady::{lemma_rewrite_pass_sound, run_steady};
use crate::varmarks::var_checked;

verus! {

/// A sound program stays sound under the abstain check.
pub proof fn lemma_abstain_checked_wf(p: Program, r: Program)
    requires
        p.wf(),
        abstain_checked(p, r),
    ensures
        r.wf(),
{
    assert(r.sizes() == p.sizes());
    assert forall|i: int| 0 <= i < r.stmts.len() implies r.stmt_ok(#[trigger] r.stmts[i]) by {
        assert(p.stmt_ok(p.stmts[i]));
    }
}

/// The passes that leave the statements in place are sound one after the
/// other: where `a` is the program folded, `b` is `a` rewritten, `c` is `b`
/// after the abstain check and `r` is `c` after the variable check, every
/// run of the program on which the expression pass is steady, taken on the
/// folded program, goes in `r` as in the program: to the same state with
/// the same outcome, and so with the same output, the same variables and
/// the same count.
pub proof fn lemma_passes_sound(
    p: Program,
    a: Program,
    b: Program,
    c: Program,
    r: Program,
    input: Seq<u8>,
    st: State,
    gates: Seq<bool>,
)
    requires
        p.wf(),
        folded(p, a),
        rewritten(a, b),
        abstain_checked(b, c),
        var_checked(c, r),
        run_steady(a, input, st, gates),
    ensures
        initial(r) == initial(p),
        run(r, input, st, gates) == run(p, input, st, gates),
{
    lemma_fold_pass_sound(p, a, input, st, gates);
    lemma_mapped_wf(p, a, Pass::Fold);
    lemma_rewrite_pass_sound(a, b, input, st, gates);
    lemma_mapped_wf(a, b, Pass::Rewrite);
    lemma_abstain_pass_sound(b, c, input, st, gates);
    lemma_abstain_checked_wf(b, c);
    lemma_var_pass_sound(c, r, input, st, gates);
}

} // verus!
