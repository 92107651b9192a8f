//! The passes of the optimizer over a whole program, and what each of
//! them leaves of the program it is given.

use vstd::prelude::*;
use crate::ast::{ExprV, Program, Stmt, StmtBody};
use crate::opt::{
    fold_spec, opt_spec, Optimizer, rewrite_mingle, rewrite_rs_and, rewrite_rs_xor, rewrite_select,
    weight,
};
use crate::valid::{expr_ok, Sizes};

verus! {

/// Folding keeps an expression in order.
pub proof fn lemma_fold_ok(e: ExprV, z: Sizes)
    requires
        expr_ok(e, z),
    ensures
        expr_ok(fold_spec(e), z),
    decreases e,
{
    match e {
        ExprV::Mingle(a, b) => {
            lemma_fold_ok(*a, z);
            lemma_fold_ok(*b, z);
        },
        ExprV::Select(a, b) => {
            lemma_fold_ok(*a, z);
            lemma_fold_ok(*b, z);
        },
        ExprV::And(_, a) => {
            lemma_fold_ok(*a, z);
        },
        ExprV::Or(_, a) => {
            lemma_fold_ok(*a, z);
        },
        ExprV::Xor(_, a) => {
            lemma_fold_ok(*a, z);
        },
        _ => {},
    }
}

/// Every replacement that the expression pass makes is in order where the
/// operands are.
pub proof fn lemma_rewrite_ok(vx: ExprV, wx: ExprV, z: Sizes)
    requires
        expr_ok(vx, z),
        expr_ok(wx, z),
    ensures
        rewrite_select(vx, wx) is Some ==> expr_ok(rewrite_select(vx, wx).unwrap(), z),
        rewrite_mingle(vx, wx) is Some ==> expr_ok(rewrite_mingle(vx, wx).unwrap(), z),
        rewrite_rs_and(vx, wx) is Some ==> expr_ok(rewrite_rs_and(vx, wx).unwrap(), z),
        rewrite_rs_xor(vx, wx) is Some ==> expr_ok(rewrite_rs_xor(vx, wx).unwrap(), z),
{
    reveal_with_fuel(expr_ok, 4);
}

/// The expression pass keeps an expression in order.
pub proof fn lemma_opt_ok(e: ExprV, z: Sizes)
    requires
        expr_ok(e, z),
    ensures
        expr_ok(opt_spec(e), z),
    decreases weight(e),
{
    match e {
        ExprV::Num(_, _) => {},
        ExprV::Var(_) => {},
        ExprV::Select(a, b) => {
            lemma_opt_ok(*a, z);
            lemma_opt_ok(*b, z);
            lemma_rewrite_ok(opt_spec(*a), opt_spec(*b), z);
            match rewrite_select(opt_spec(*a), opt_spec(*b)) {
                Some(r) => {
                    if weight(r) < weight(e) {
                        lemma_opt_ok(r, z);
                    }
                },
                None => {},
            }
        },
        ExprV::Mingle(a, b) => {
            lemma_opt_ok(*a, z);
            lemma_opt_ok(*b, z);
            lemma_rewrite_ok(opt_spec(*a), opt_spec(*b), z);
            match rewrite_mingle(opt_spec(*a), opt_spec(*b)) {
                Some(r) => {
                    if weight(r) < weight(e) {
                        lemma_opt_ok(r, z);
                    }
                },
                None => {},
            }
        },
        ExprV::RsAnd(a, b) => {
            lemma_opt_ok(*a, z);
            lemma_opt_ok(*b, z);
            lemma_rewrite_ok(opt_spec(*a), opt_spec(*b), z);
            match rewrite_rs_and(opt_spec(*a), opt_spec(*b)) {
                Some(r) => {
                    if weight(r) < weight(e) {
                        lemma_opt_ok(r, z);
                    }
                },
                None => {},
            }
        },
        ExprV::RsXor(a, b) => {
            lemma_opt_ok(*a, z);
            lemma_opt_ok(*b, z);
            lemma_rewrite_ok(opt_spec(*a), opt_spec(*b), z);
            match rewrite_rs_xor(opt_spec(*a), opt_spec(*b)) {
                Some(r) => {
                    if weight(r) < weight(e) {
                        lemma_opt_ok(r, z);
                    }
                },
                None => {},
            }
        },
        ExprV::And(_, a) => {
            lemma_opt_ok(*a, z);
        },
        ExprV::Or(_, a) => {
            lemma_opt_ok(*a, z);
        },
        ExprV::Xor(_, a) => {
            lemma_opt_ok(*a, z);
        },
        ExprV::RsNot(a) => {
            lemma_opt_ok(*a, z);
        },
        ExprV::RsOr(a, b) => {
            lemma_opt_ok(*a, z);
            lemma_opt_ok(*b, z);
        },
        ExprV::RsRshift(a, b) => {
            lemma_opt_ok(*a, z);
            lemma_opt_ok(*b, z);
        },
        ExprV::RsLshift(a, b) => {
            lemma_opt_ok(*a, z);
            lemma_opt_ok(*b, z);
        },
        ExprV::RsPlus(a, b) => {
            lemma_opt_ok(*a, z);
            lemma_opt_ok(*b, z);
        },
        ExprV::RsMinus(a, b) => {
            lemma_opt_ok(*a, z);
            lemma_opt_ok(*b, z);
        },
        ExprV::RsNotEqual(a, b) => {
            lemma_opt_ok(*a, z);
            lemma_opt_ok(*b, z);
        },
    }
}

/// The two passes that work on expressions.
pub ghost enum Pass {
    Fold,
    Rewrite,
}

/// What a pass makes of an expression.
pub open spec fn pass_expr(k: Pass, e: ExprV) -> ExprV {
    match k {
        Pass::Fold => fold_spec(e),
        Pass::Rewrite => opt_spec(e),
    }
}

/// Both passes keep an expression in order.
pub proof fn lemma_pass_ok(k: Pass, e: ExprV, z: Sizes)
    requires
        expr_ok(e, z),
    ensures
        expr_ok(pass_expr(k, e), z),
{
    lemma_fold_ok(e, z);
    lemma_opt_ok(e, z);
}

/// Whether the body `b` is the body `a` with the expression that it
/// computes with replaced by what the pass makes of it. Only calculations,
/// RESUME and FORGET compute with an expression that the optimizer touches.
pub open spec fn body_mapped(a: StmtBody, b: StmtBody, f: Pass) -> bool {
    match a {
        StmtBody::Calc(v, e) => match b {
            StmtBody::Calc(v2, e2) => v2 == v && e2@ == pass_expr(f, e@),
            _ => false,
        },
        StmtBody::Resume(e) => match b {
            StmtBody::Resume(e2) => e2@ == pass_expr(f, e@),
            _ => false,
        },
        StmtBody::Forget(e) => match b {
            StmtBody::Forget(e2) => e2@ == pass_expr(f, e@),
            _ => false,
        },
        _ => b == a,
    }
}

/// Whether the statement `b` is the statement `a` with its expression
/// replaced by what the pass makes of it.
pub open spec fn stmt_mapped(a: Stmt, b: Stmt, f: Pass) -> bool {
    &&& body_mapped(a.body, b.body, f)
    &&& b.props == a.props
    &&& b.comefrom == a.comefrom
    &&& b.can_abstain == a.can_abstain
}

/// Whether two programs differ at most in their statements.
pub open spec fn same_tables(p: Program, r: Program) -> bool {
    &&& r.labels == p.labels
    &&& r.stmt_types == p.stmt_types
    &&& r.var_info == p.var_info
    &&& r.uses_complex_comefrom == p.uses_complex_comefrom
    &&& r.added_syslib == p.added_syslib
    &&& r.added_floatlib == p.added_floatlib
    &&& r.bugline == p.bugline
}

/// Whether the program `r` is the program `p` with the expression of each
/// statement replaced by what the pass makes of it.
pub open spec fn program_mapped(p: Program, r: Program, f: Pass) -> bool {
    &&& same_tables(p, r)
    &&& r.stmts.len() == p.stmts.len()
    &&& forall|i: int|
        0 <= i < p.stmts.len() ==> stmt_mapped(p.stmts[i], #[trigger] r.stmts[i], f)
}

/// What constant folding leaves of a program.
pub open spec fn folded(p: Program, r: Program) -> bool {
    program_mapped(p, r, Pass::Fold)
}

/// What the expression pass leaves of a program.
pub open spec fn rewritten(p: Program, r: Program) -> bool {
    program_mapped(p, r, Pass::Rewrite)
}

/// A sound program stays sound under both passes.
pub proof fn lemma_mapped_wf(p: Program, r: Program, f: Pass)
    requires
        p.wf(),
        program_mapped(p, r, f),
    ensures
        r.wf(),
{
    assert(r.sizes() == p.sizes());
    assert forall|i: int| 0 <= i < r.stmts.len() implies r.stmt_ok(#[trigger] r.stmts[i]) by {
        assert(p.stmt_ok(p.stmts[i]));
        assert(stmt_mapped(p.stmts[i], r.stmts[i], f));
        match p.stmts[i].body {
            StmtBody::Calc(_, e) => lemma_pass_ok(f, e@, p.sizes()),
            StmtBody::Resume(e) => lemma_pass_ok(f, e@, p.sizes()),
            StmtBody::Forget(e) => lemma_pass_ok(f, e@, p.sizes()),
            _ => {},
        }
    }
}

impl Optimizer {
    /// Folds the operators on literals in the expression of a statement.
    fn fold_stmt(stmt: &mut Stmt)
        ensures
            stmt_mapped(*old(stmt), *final(stmt), Pass::Fold),
    {
        match &mut stmt.body {
            StmtBody::Calc(_, expr) => Optimizer::fold(expr),
            StmtBody::Resume(expr) => Optimizer::fold(expr),
            StmtBody::Forget(expr) => Optimizer::fold(expr),
            _ => {},
        }
    }

    /// Rewrites the expression of a statement.
    fn opt_stmt(stmt: &mut Stmt)
        ensures
            stmt_mapped(*old(stmt), *final(stmt), Pass::Rewrite),
    {
        match &mut stmt.body {
            StmtBody::Calc(_, expr) => Optimizer::opt_expr(expr),
            StmtBody::Resume(expr) => Optimizer::opt_expr(expr),
            StmtBody::Forget(expr) => Optimizer::opt_expr(expr),
            _ => {},
        }
    }

    /// Folds expressions on literals, of which there are many, as no
    /// literal has more than 16 bits.
    pub fn opt_constant_fold(program: Program) -> (r: Program)
        ensures
            folded(program, r),
            program.wf() ==> r.wf(),
    {
        let mut program = program;
        let ghost orig = program;
        let mut i: usize = 0;
        while i < program.stmts.len()
            invariant
                i <= program.stmts.len(),
                program.stmts.len() == orig.stmts.len(),
                same_tables(orig, program),
                forall|j: int|
                    0 <= j < i ==> stmt_mapped(
                        orig.stmts[j],
                        #[trigger] program.stmts[j],
                        Pass::Fold,
                    ),
                forall|j: int| i <= j < program.stmts.len() ==> program.stmts[j] == orig.stmts[j],
            decreases program.stmts.len() - i,
        {
            Optimizer::fold_stmt(&mut program.stmts[i]);
            i += 1;
        }
        proof {
            if orig.wf() {
                lemma_mapped_wf(orig, program, Pass::Fold);
            }
        }
        program
    }

    /// Replaces known patterns of INTERCAL operators by host arithmetic.
    pub fn opt_expressions(program: Program) -> (r: Program)
        ensures
            rewritten(program, r),
            program.wf() ==> r.wf(),
    {
        let mut program = program;
        let ghost orig = program;
        let mut i: usize = 0;
        while i < program.stmts.len()
            invariant
                i <= program.stmts.len(),
                program.stmts.len() == orig.stmts.len(),
                same_tables(orig, program),
                forall|j: int|
                    0 <= j < i ==> stmt_mapped(
                        orig.stmts[j],
                        #[trigger] program.stmts[j],
                        Pass::Rewrite,
                    ),
                forall|j: int| i <= j < program.stmts.len() ==> program.stmts[j] == orig.stmts[j],
            decreases program.stmts.len() - i,
        {
            Optimizer::opt_stmt(&mut program.stmts[i]);
            i += 1;
        }
        proof {
            if orig.wf() {
                lemma_mapped_wf(orig, program, Pass::Rewrite);
            }
        }
        program
    }
}

} // verus!
