//! The two passes that mark what a later stage may rely on: which
//! statements some ABSTAIN or REINSTATE can reach, and which variables
//! some STASH, RETRIEVE, IGNORE or REMEMBER names.

use vstd::prelude::*;
use crate::ast::{Abstain, Program, StmtBody};
use crate::labels::find_label;
use crate::opt::Optimizer;
use crate::passes::same_tables;

verus! {

/// The targets that a statement aims at, if it is an ABSTAIN or a
/// REINSTATE.
pub open spec fn targets(b: StmtBody) -> Option<Seq<Abstain>> {
    match b {
        StmtBody::Abstain(ts) => Some(ts@),
        StmtBody::Reinstate(ts) => Some(ts@),
        _ => None,
    }
}

/// Whether a target aims at the statement `i`: by its label, or by its
/// kind.
pub open spec fn aims(p: Program, t: Abstain, i: int) -> bool {
    match t {
        Abstain::Label(l) => p.labels@.contains_key(l) && p.labels@[l] == i,
        Abstain::StmtType(k) => 0 <= i < p.stmt_types.len() && p.stmt_types[i] == k,
    }
}

/// Whether the target `k` of the statement `s` aims at the statement `i`.
pub open spec fn reached(p: Program, s: int, k: int, i: int) -> bool {
    &&& 0 <= s < p.stmts.len()
    &&& targets(p.stmts[s].body) is Some
    &&& 0 <= k < targets(p.stmts[s].body).unwrap().len()
    &&& aims(p, targets(p.stmts[s].body).unwrap()[k], i)
}

/// Whether some ABSTAIN or REINSTATE of the program aims at the statement
/// `i`.
pub open spec fn targeted(p: Program, i: int) -> bool {
    exists|s: int, k: int| #[trigger] reached(p, s, k, i)
}

/// Whether a target before the target `k` of the statement `s`, in the
/// order of the program, aims at the statement `i`.
pub open spec fn targeted_before(p: Program, s: int, k: int, i: int) -> bool {
    exists|s1: int, k1: int| #[trigger] reached(p, s1, k1, i) && (s1 < s || (s1 == s && k1 < k))
}

/// What the abstain check leaves of a program: each statement is marked
/// exactly if something aims at it, and GIVE UP never is.
pub open spec fn abstain_checked(p: Program, r: Program) -> bool {
    &&& same_tables(p, r)
    &&& r.stmts.len() == p.stmts.len()
    &&& forall|i: int|
        0 <= i < p.stmts.len() ==> {
            &&& (#[trigger] r.stmts[i]).body == p.stmts[i].body
            &&& r.stmts[i].props == p.stmts[i].props
            &&& r.stmts[i].comefrom == p.stmts[i].comefrom
            &&& r.stmts[i].can_abstain == (!(p.stmts[i].body is GiveUp) && targeted(p, i))
        }
}

proof fn lemma_before_target(p: Program, s: int, k: int, i: int)
    ensures
        targeted_before(p, s, k + 1, i) == (targeted_before(p, s, k, i) || reached(p, s, k, i)),
{
    if targeted_before(p, s, k + 1, i) {
        let (s1, k1) = choose|s1: int, k1: int| #[trigger]
            reached(p, s1, k1, i) && (s1 < s || (s1 == s && k1 < k + 1));
        if !(s1 == s && k1 == k) {
            assert(reached(p, s1, k1, i) && (s1 < s || (s1 == s && k1 < k)));
        }
    }
    if targeted_before(p, s, k, i) {
        let (s1, k1) = choose|s1: int, k1: int| #[trigger]
            reached(p, s1, k1, i) && (s1 < s || (s1 == s && k1 < k));
        assert(reached(p, s1, k1, i) && (s1 < s || (s1 == s && k1 < k + 1)));
    }
    if reached(p, s, k, i) {
        assert(reached(p, s, k, i) && (s < s || (s == s && k < k + 1)));
    }
}

proof fn lemma_before_stmt(p: Program, s: int, k: int, i: int)
    requires
        0 <= s < p.stmts.len(),
        match targets(p.stmts[s].body) {
            Some(ts) => k >= ts.len(),
            None => true,
        },
    ensures
        targeted_before(p, s + 1, 0, i) == targeted_before(p, s, k, i),
{
    if targeted_before(p, s + 1, 0, i) {
        let (s1, k1) = choose|s1: int, k1: int| #[trigger]
            reached(p, s1, k1, i) && (s1 < s + 1 || (s1 == s + 1 && k1 < 0));
        assert(reached(p, s1, k1, i) && (s1 < s || (s1 == s && k1 < k)));
    }
    if targeted_before(p, s, k, i) {
        let (s1, k1) = choose|s1: int, k1: int| #[trigger]
            reached(p, s1, k1, i) && (s1 < s || (s1 == s && k1 < k));
        assert(reached(p, s1, k1, i) && (s1 < s + 1 || (s1 == s + 1 && k1 < 0)));
    }
}

proof fn lemma_before_all(p: Program, i: int)
    ensures
        targeted_before(p, p.stmts.len() as int, 0, i) == targeted(p, i),
        !targeted_before(p, 0, 0, i),
{
    let n = p.stmts.len() as int;
    if targeted(p, i) {
        let (s1, k1) = choose|s1: int, k1: int| #[trigger] reached(p, s1, k1, i);
        assert(reached(p, s1, k1, i) && (s1 < n || (s1 == n && k1 < 0)));
    }
    if targeted_before(p, n, 0, i) {
        let (s1, k1) = choose|s1: int, k1: int| #[trigger]
            reached(p, s1, k1, i) && (s1 < n || (s1 == n && k1 < 0));
        assert(reached(p, s1, k1, i));
    }
}

/// Marks the statements that one target aims at.
fn mark_target(
    program: &Program,
    what: &Abstain,
    flags: &mut Vec<bool>,
    Ghost(s): Ghost<int>,
    Ghost(k): Ghost<int>,
)
    requires
        program.wf(),
        program.target_ok(*what),
        old(flags).len() == program.stmts.len(),
        0 <= s < program.stmts.len(),
        targets(program.stmts[s].body) is Some,
        0 <= k < targets(program.stmts[s].body).unwrap().len(),
        targets(program.stmts[s].body).unwrap()[k] == *what,
        forall|i: int|
            0 <= i < old(flags).len() ==> old(flags)@[i] == targeted_before(*program, s, k, i),
    ensures
        final(flags).len() == program.stmts.len(),
        forall|i: int|
            0 <= i < final(flags).len() ==> final(flags)@[i] == targeted_before(
                *program,
                s,
                k + 1,
                i,
            ),
{
    match what {
        Abstain::Label(l) => {
            match find_label(&program.labels, *l) {
                Some(idx) => {
                    flags.set(idx, true);
                },
                None => {},
            }
            proof {
                assert forall|i: int| 0 <= i < flags.len() implies flags@[i] == targeted_before(
                    *program,
                    s,
                    k + 1,
                    i,
                ) by {
                    lemma_before_target(*program, s, k, i);
                }
            }
        },
        Abstain::StmtType(t) => {
            let mut j: usize = 0;
            while j < program.stmt_types.len()
                invariant
                    j <= program.stmt_types.len(),
                    program.stmt_types.len() <= program.stmts.len(),
                    flags.len() == program.stmts.len(),
                    *what == Abstain::StmtType(*t),
                    forall|i: int|
                        0 <= i < flags.len() ==> #[trigger] flags@[i] == (targeted_before(
                            *program,
                            s,
                            k,
                            i,
                        ) || (i < j && aims(*program, *what, i))),
                decreases program.stmt_types.len() - j,
            {
                let ghost before = flags@;
                if program.stmt_types[j] == *t {
                    flags.set(j, true);
                }
                proof {
                    assert forall|i: int| 0 <= i < flags.len() implies #[trigger] flags@[i] == (
                    targeted_before(*program, s, k, i) || (i < j + 1 && aims(
                        *program,
                        *what,
                        i,
                    ))) by {
                        assert(before[i] == (targeted_before(*program, s, k, i) || (i < j && aims(
                            *program,
                            *what,
                            i,
                        ))));
                    }
                }
                j += 1;
            }
            proof {
                assert forall|i: int| 0 <= i < flags.len() implies flags@[i] == targeted_before(
                    *program,
                    s,
                    k + 1,
                    i,
                ) by {
                    lemma_before_target(*program, s, k, i);
                }
            }
        },
    }
}

/// Marks the statements that the targets of one statement aim at.
fn mark_targets(
    program: &Program,
    whats: &Vec<Abstain>,
    flags: &mut Vec<bool>,
    Ghost(s): Ghost<int>,
)
    requires
        program.wf(),
        old(flags).len() == program.stmts.len(),
        0 <= s < program.stmts.len(),
        targets(program.stmts[s].body) == Some(whats@),
        forall|i: int|
            0 <= i < old(flags).len() ==> old(flags)@[i] == targeted_before(*program, s, 0, i),
    ensures
        final(flags).len() == program.stmts.len(),
        forall|i: int|
            0 <= i < final(flags).len() ==> final(flags)@[i] == targeted_before(
                *program,
                s + 1,
                0,
                i,
            ),
{
    let mut k: usize = 0;
    assert(program.stmt_ok(program.stmts[s]));
    while k < whats.len()
        invariant
            k <= whats.len(),
            program.wf(),
            program.targets_ok(whats@),
            flags.len() == program.stmts.len(),
            0 <= s < program.stmts.len(),
            targets(program.stmts[s].body) == Some(whats@),
            forall|i: int|
                0 <= i < flags.len() ==> flags@[i] == targeted_before(*program, s, k as int, i),
        decreases whats.len() - k,
    {
        mark_target(program, &whats[k], flags, Ghost(s), Ghost(k as int));
        k += 1;
    }
    proof {
        assert forall|i: int| 0 <= i < flags.len() implies flags@[i] == targeted_before(
            *program,
            s + 1,
            0,
            i,
        ) by {
            lemma_before_stmt(*program, s, k as int, i);
        }
    }
}

fn is_give_up(b: &StmtBody) -> (r: bool)
    ensures
        r == (*b is GiveUp),
{
    match b {
        StmtBody::GiveUp => true,
        _ => false,
    }
}

impl Optimizer {
    /// Marks the statements that can be abstained from, so that a later
    /// stage need not guard the others.
    pub fn opt_abstain_check(program: Program) -> (r: Program)
        requires
            program.wf(),
        ensures
            abstain_checked(program, r),
            r.wf(),
    {
        let mut program = program;
        let ghost orig = program;
        let n = program.stmts.len();
        let mut flags: Vec<bool> = Vec::new();
        while flags.len() < n
            invariant
                flags.len() <= n,
                forall|i: int| 0 <= i < flags.len() ==> !flags@[i],
            decreases n - flags.len(),
        {
            flags.push(false);
        }
        let mut s: usize = 0;
        proof {
            assert forall|i: int| 0 <= i < flags.len() implies flags@[i] == targeted_before(
                program,
                0,
                0,
                i,
            ) by {
                lemma_before_all(program, i);
            }
        }
        while s < n
            invariant
                s <= n,
                n == program.stmts.len(),
                program == orig,
                program.wf(),
                flags.len() == n,
                forall|i: int|
                    0 <= i < flags.len() ==> flags@[i] == targeted_before(program, s as int, 0, i),
            decreases n - s,
        {
            match &program.stmts[s].body {
                StmtBody::Abstain(whats) => {
                    mark_targets(&program, whats, &mut flags, Ghost(s as int));
                },
                StmtBody::Reinstate(whats) => {
                    mark_targets(&program, whats, &mut flags, Ghost(s as int));
                },
                _ => {
                    proof {
                        assert forall|i: int| 0 <= i < flags.len() implies flags@[i]
                            == targeted_before(program, s + 1, 0, i) by {
                            lemma_before_stmt(program, s as int, 0, i);
                        }
                    }
                },
            }
            s += 1;
        }
        let mut i: usize = 0;
        while i < n
            invariant
                i <= n,
                n == orig.stmts.len(),
                program.stmts.len() == n,
                flags.len() == n,
                same_tables(orig, program),
                forall|j: int| 0 <= j < n ==> flags@[j] == targeted(orig, j),
                forall|j: int|
                    0 <= j < n ==> {
                        &&& (#[trigger] program.stmts[j]).body == orig.stmts[j].body
                        &&& program.stmts[j].props == orig.stmts[j].props
                        &&& program.stmts[j].comefrom == orig.stmts[j].comefrom
                    },
                forall|j: int|
                    0 <= j < i ==> (#[trigger] program.stmts[j]).can_abstain == (!(
                    orig.stmts[j].body is GiveUp) && targeted(orig, j)),
            decreases n - i,
        {
            let give_up = is_give_up(&program.stmts[i].body);
            let flag = !give_up && flags[i];
            let stmt = &mut program.stmts[i];
            stmt.can_abstain = flag;
            i += 1;
        }
        proof {
            assert(program.sizes() == orig.sizes());
            assert forall|j: int| 0 <= j < program.stmts.len() implies program.stmt_ok(
                #[trigger] program.stmts[j],
            ) by {
                assert(orig.stmt_ok(orig.stmts[j]));
            }
        }
        program
    }
}

} // verus!
