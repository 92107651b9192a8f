//! The pass that reduces a program of constant output to that output, and
//! the optimizer as a whole.

use std::collections::BTreeMap;
use vstd::prelude::*;
use crate::ast::{Program, Stmt, StmtBody, StmtProps};
use crate::certain::{certain, lemma_end_certain};
use crate::eval::Eval;
use crate::machine::initial;
use crate::marks::abstain_checked;
use crate::opt::Optimizer;
use crate::passes::{folded, rewritten};
use crate::run::{restarted, run_result};
use crate::sem::{exec_stmt, run, step, Outcome};
use crate::varmarks::var_checked;

verus! {

/// The label of the statement before the statement `i`, 0 for the first.
pub open spec fn prev_label(p: Program, i: int) -> u16 {
    if i <= 0 {
        0
    } else {
        p.stmts[i - 1].props.label
    }
}

/// Whether the statement `i` leaves the output of the program constant: it
/// does not run by chance, takes no input and calls none of the random
/// routines of the standard library. Within the standard library itself a
/// chance is in order behind the labels 1901, 5401 and 5402, and a call of
/// a random routine behind the label 1911.
pub open spec fn stmt_constant(p: Program, i: int) -> bool {
    let stmt = p.stmts[i];
    let prev = prev_label(p, i);
    &&& stmt.props.chance < 100 ==> (p.added_syslib && prev == 1901) || (p.added_floatlib && (prev
        == 5401 || prev == 5402))
    &&& !(stmt.body is WriteIn)
    &&& match stmt.body {
        StmtBody::DoNext(n) => !((n == 1900 || n == 1910 || n == 5400) && prev != 1911),
        _ => true,
    }
}

/// Whether the output of the program is taken to be constant.
pub open spec fn candidate(p: Program) -> bool {
    forall|i: int| 0 <= i < p.stmts.len() ==> #[trigger] stmt_constant(p, i)
}

/// Whether `r` is the program that prints `bytes` and gives up, with no
/// labels, statement kinds or variables.
pub open spec fn is_constant(r: Program, bytes: Seq<u8>) -> bool {
    &&& r.stmts.len() == 2
    &&& match r.stmts[0].body {
        StmtBody::Print(b) => b@ == bytes,
        _ => false,
    }
    &&& r.stmts[1].body is GiveUp
    &&& forall|i: int|
        0 <= i < 2 ==> {
            &&& (#[trigger] r.stmts[i]).props == (StmtProps {
                srcline: 0,
                chance: 100,
                disabled: false,
                label: 0,
            })
            &&& r.stmts[i].comefrom is None
        }
    &&& r.labels@ == Map::<u16, usize>::empty()
    &&& r.stmt_types.len() == 0
    &&& r.var_info.0.len() == 0
    &&& r.var_info.1.len() == 0
    &&& r.var_info.2.len() == 0
    &&& r.var_info.3.len() == 0
    &&& !r.uses_complex_comefrom
    &&& !r.added_syslib
    &&& !r.added_floatlib
    &&& r.bugline == 2
}

/// Whether `r` is what the run of `p` under the draws `gates`, without
/// input, makes of `p`: the constant program of its output if it gave up,
/// and `p` itself if it failed.
pub open spec fn reduced_by(p: Program, gates: Seq<bool>, r: Program) -> bool {
    let (st, o) = run(p, Seq::<u8>::empty(), initial(p), gates);
    match o {
        Outcome::Done(_) => is_constant(r, st.output),
        Outcome::Failed(_) => r == p,
        Outcome::Running => false,
    }
}

/// What the constant-output pass leaves of a program: a program that is no
/// candidate stays as it is, and a candidate is run.
pub open spec fn const_output(p: Program, r: Program) -> bool {
    if candidate(p) {
        exists|gates: Seq<bool>| #[trigger] reduced_by(p, gates, r)
    } else {
        r == p
    }
}

/// What the optimizer leaves of a program: the passes one after the other.
pub open spec fn optimized(p: Program, allow_const_out: bool, r: Program) -> bool {
    exists|a: Program, b: Program, c: Program, d: Program|
        {
            &&& #[trigger] folded(p, a)
            &&& #[trigger] rewritten(a, b)
            &&& if allow_const_out {
                const_output(b, c)
            } else {
                c == b
            }
            &&& #[trigger] abstain_checked(c, d)
            &&& #[trigger] var_checked(d, r)
        }
}

fn check_candidate(program: &Program) -> (r: bool)
    ensures
        r == candidate(*program),
{
    let mut prev_lbl: u16 = 0;
    let mut i: usize = 0;
    while i < program.stmts.len()
        invariant
            i <= program.stmts.len(),
            prev_lbl == prev_label(*program, i as int),
            forall|j: int| 0 <= j < i ==> #[trigger] stmt_constant(*program, j),
        decreases program.stmts.len() - i,
    {
        let stmt = &program.stmts[i];
        let mut possible = true;
        if stmt.props.chance < 100 {
            if !(program.added_syslib && prev_lbl == 1901) {
                if !(program.added_floatlib && (prev_lbl == 5401 || prev_lbl == 5402)) {
                    possible = false;
                }
            }
        }
        match &stmt.body {
            StmtBody::WriteIn(_) => {
                possible = false;
            },
            StmtBody::DoNext(n) => {
                if (*n == 1900 || *n == 1910 || *n == 5400) && prev_lbl != 1911 {
                    possible = false;
                }
            },
            _ => {},
        }
        if !possible {
            assert(!stmt_constant(*program, i as int));
            return false;
        }
        prev_lbl = stmt.props.label;
        i += 1;
    }
    true
}

fn constant_program(bytes: Vec<u8>) -> (r: Program)
    ensures
        is_constant(r, bytes@),
        r.wf(),
{
    let mut stmts: Vec<Stmt> = Vec::new();
    stmts.push(Stmt::new_with(StmtBody::Print(bytes)));
    stmts.push(Stmt::new_with(StmtBody::GiveUp));
    let r = Program {
        stmts,
        labels: BTreeMap::new(),
        stmt_types: Vec::new(),
        var_info: (Vec::new(), Vec::new(), Vec::new(), Vec::new()),
        uses_complex_comefrom: false,
        added_syslib: false,
        added_floatlib: false,
        bugline: 2,
    };
    proof {
        assert forall|i: int| 0 <= i < r.stmts.len() implies r.stmt_ok(#[trigger] r.stmts[i]) by {
            assert(i == 0 || i == 1);
        }
    }
    r
}

impl Optimizer {
    /// An optimizer for `program`. The constant-output pass runs the
    /// program, so it is left out unless `allow_const_out` is set.
    pub fn new(program: Program, allow_const_out: bool) -> (o: Optimizer)
        ensures
            o.program == program,
            o.allow_const_out == allow_const_out,
    {
        Optimizer { program, allow_const_out }
    }

    /// Checks for a program that takes no input and always writes the
    /// same; such a program is run and reduced to the printing of what it
    /// wrote. A program that fails when it is run is left as it is.
    pub fn opt_const_output(program: Program) -> (r: Program)
        requires
            program.wf(),
        ensures
            const_output(program, r),
            r.wf(),
    {
        if !check_candidate(&program) {
            return program;
        }
        let mut ev = Eval::new(&program, Vec::new());
        assert(restarted(ev@) == initial(program));
        let res = ev.eval();
        let ghost gates = choose|gates: Seq<bool>| #[trigger]
            run(program, Seq::<u8>::empty(), initial(program), gates) == (ev@, run_result(res));
        match res {
            Err(_) => {
                assert(reduced_by(program, gates, program));
                program
            },
            Ok(_) => {
                let r = constant_program(ev.output);
                assert(reduced_by(program, gates, r));
                r
            },
        }
    }

    /// Runs the passes one after the other.
    pub fn optimize(self) -> (r: Program)
        requires
            self.program.wf(),
        ensures
            optimized(self.program, self.allow_const_out, r),
            r.wf(),
    {
        let ghost given = self.program;
        let allow = self.allow_const_out;
        let program = Optimizer::opt_constant_fold(self.program);
        let ghost a = program;
        let program = Optimizer::opt_expressions(program);
        let ghost b = program;
        let program = if allow {
            Optimizer::opt_const_output(program)
        } else {
            program
        };
        let ghost c = program;
        let program = Optimizer::opt_abstain_check(program);
        let ghost d = program;
        let program = Optimizer::opt_var_check(program);
        assert(folded(given, a) && rewritten(a, b) && abstain_checked(c, d) && var_checked(
            d,
            program,
        ));
        program
    }
}

/// The constant program gives its bytes back: run on any input, under any
/// draws, it writes exactly the bytes and gives up at its second
/// statement.
pub proof fn lemma_constant_runs(r: Program, bytes: Seq<u8>, input: Seq<u8>, gates: Seq<bool>)
    requires
        is_constant(r, bytes),
        gates.len() >= 2,
    ensures
        run(r, input, initial(r), gates).1 == Outcome::Done(2),
        run(r, input, initial(r), gates).0.output == bytes,
    decreases gates.len(),
{
    reveal(step);
    reveal(exec_stmt);
    if gates.len() == 2 {
        let g1 = gates.drop_last();
        let g0 = g1.drop_last();
        assert(g0.len() == 0);
        let s0 = initial(r);
        assert(run(r, input, s0, g0) == (s0, Outcome::Running));
        let (s1, o1) = step(r, input, s0, g1.last());
        assert(run(r, input, s0, g1) == (s1, o1));
        assert(r.stmts[0].props.chance == 100);
        assert(r.stmts[1].props.chance == 100);
        assert(o1 is Running);
        assert(s1.pctr == 1);
        assert(s1.output =~= bytes);
        assert(s1.stmt_ctr == 1);
        assert(!s1.abstain[1]);
    } else {
        lemma_constant_runs(r, bytes, input, gates.drop_last());
    }
}

/// A program that the constant-output pass has reduced writes what it
/// wrote when the pass ran it: what is left has exactly two statements, a
/// print and a GIVE UP, and its run on any input, under any draws, writes
/// the bytes that the run of the program under the draws `seen` wrote.
pub proof fn lemma_reduced_runs(
    p: Program,
    seen: Seq<bool>,
    r: Program,
    input: Seq<u8>,
    gates: Seq<bool>,
)
    requires
        reduced_by(p, seen, r),
        run(p, Seq::<u8>::empty(), initial(p), seen).1 is Done,
        gates.len() >= 2,
    ensures
        r.stmts.len() == 2,
        r.stmts[0].body is Print,
        r.stmts[1].body is GiveUp,
        run(r, input, initial(r), gates).1 == Outcome::Done(2),
        run(r, input, initial(r), gates).0.output == run(
            p,
            Seq::<u8>::empty(),
            initial(p),
            seen,
        ).0.output,
{
    let bytes = run(p, Seq::<u8>::empty(), initial(p), seen).0.output;
    lemma_constant_runs(r, bytes, input, gates);
}

/// Of a program in which no statement runs by chance the
/// constant-output pass leaves what every run that ends says: the
/// constant program of the output where the run gives up, and the program
/// itself where the run fails.
pub proof fn lemma_const_output_certain(p: Program, r: Program, gates: Seq<bool>)
    requires
        certain(p),
        candidate(p),
        const_output(p, r),
        !(run(p, Seq::<u8>::empty(), initial(p), gates).1 is Running),
    ensures
        reduced_by(p, gates, r),
{
    let seen = choose|seen: Seq<bool>| #[trigger] reduced_by(p, seen, r);
    lemma_end_certain(p, Seq::<u8>::empty(), initial(p), gates, seen);
}

} // verus!
