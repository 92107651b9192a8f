//! What a program must satisfy before it is evaluated or optimized: every
//! variable is in its table, every target of ABSTAIN exists, and the
//! statements have the forms that the parser produces.

use vstd::prelude::*;
use crate::ast::{
    exprs_view, var_view, Abstain, Expr, ExprV, Program, Stmt, StmtBody, VType, Var, VarV,
};
use crate::labels::find_label;

verus! {

/// The number of variables of each class.
pub ghost struct Sizes {
    pub spot: nat,
    pub twospot: nat,
    pub tail: nat,
    pub hybrid: nat,
}

/// Whether every variable in the expression is in its table and every
/// 16-bit literal fits in 16 bits.
pub open spec fn expr_ok(e: ExprV, z: Sizes) -> bool
    decreases e,
{
    match e {
        ExprV::Num(t, v) => t == VType::I16 ==> v <= 0xffff,
        ExprV::Var(v) => var_ok(v, z),
        ExprV::Mingle(a, b) => expr_ok(*a, z) && expr_ok(*b, z),
        ExprV::Select(a, b) => expr_ok(*a, z) && expr_ok(*b, z),
        ExprV::And(_, a) => expr_ok(*a, z),
        ExprV::Or(_, a) => expr_ok(*a, z),
        ExprV::Xor(_, a) => expr_ok(*a, z),
        ExprV::RsAnd(a, b) => expr_ok(*a, z) && expr_ok(*b, z),
        ExprV::RsOr(a, b) => expr_ok(*a, z) && expr_ok(*b, z),
        ExprV::RsXor(a, b) => expr_ok(*a, z) && expr_ok(*b, z),
        ExprV::RsNot(a) => expr_ok(*a, z),
        ExprV::RsRshift(a, b) => expr_ok(*a, z) && expr_ok(*b, z),
        ExprV::RsLshift(a, b) => expr_ok(*a, z) && expr_ok(*b, z),
        ExprV::RsPlus(a, b) => expr_ok(*a, z) && expr_ok(*b, z),
        ExprV::RsMinus(a, b) => expr_ok(*a, z) && expr_ok(*b, z),
        ExprV::RsNotEqual(a, b) => expr_ok(*a, z) && expr_ok(*b, z),
    }
}

/// Whether every expression of the list is in order.
pub open spec fn exprs_ok(es: Seq<ExprV>, z: Sizes) -> bool
    decreases es,
{
    forall|i: int| 0 <= i < es.len() ==> expr_ok(#[trigger] es[i], z)
}

/// Whether the variable is in its table and its subscripts are in order.
pub open spec fn var_ok(v: VarV, z: Sizes) -> bool
    decreases v,
{
    match v {
        VarV::I16(n) => n < z.spot,
        VarV::I32(n) => n < z.twospot,
        VarV::A16(n, subs) => n < z.tail && exprs_ok(subs, z),
        VarV::A32(n, subs) => n < z.hybrid && exprs_ok(subs, z),
    }
}

/// The values of a list of variables, in order.
pub open spec fn vars_view(vs: Vec<Var>) -> Seq<VarV> {
    Seq::new(vs.len() as nat, |i: int| var_view(vs[i]))
}

/// Whether every variable of the list is in order.
pub open spec fn vars_ok(vs: Seq<VarV>, z: Sizes) -> bool {
    forall|i: int| 0 <= i < vs.len() ==> var_ok(#[trigger] vs[i], z)
}

impl Program {
    /// The sizes of the four variable tables.
    pub open spec fn sizes(&self) -> Sizes {
        Sizes {
            spot: self.var_info.0.len() as nat,
            twospot: self.var_info.1.len() as nat,
            tail: self.var_info.2.len() as nat,
            hybrid: self.var_info.3.len() as nat,
        }
    }

    /// Whether a target of ABSTAIN exists: a label must stand at a
    /// statement.
    pub open spec fn target_ok(&self, t: Abstain) -> bool {
        match t {
            Abstain::Label(l) => self.labels@.contains_key(l) && self.labels@[l]
                < self.stmts.len(),
            Abstain::StmtType(_) => true,
        }
    }

    /// Whether every target of the list exists.
    pub open spec fn targets_ok(&self, ts: Seq<Abstain>) -> bool {
        forall|i: int| 0 <= i < ts.len() ==> self.target_ok(#[trigger] ts[i])
    }

    /// Whether the body of a statement is in order: its variables are in
    /// their tables, its targets exist, and DIM names an array.
    pub open spec fn body_ok(&self, b: StmtBody) -> bool {
        let z = self.sizes();
        match b {
            StmtBody::Calc(v, e) => var_ok(v@, z) && expr_ok(e@, z),
            StmtBody::Dim(v, es) => v@.is_array() && var_ok(v@, z) && exprs_ok(
                exprs_view(es),
                z,
            ),
            StmtBody::Resume(e) => expr_ok(e@, z),
            StmtBody::Forget(e) => expr_ok(e@, z),
            StmtBody::Ignore(vs) => vars_ok(vars_view(vs), z),
            StmtBody::Remember(vs) => vars_ok(vars_view(vs), z),
            StmtBody::Stash(vs) => vars_ok(vars_view(vs), z),
            StmtBody::Retrieve(vs) => vars_ok(vars_view(vs), z),
            StmtBody::Abstain(ts) => self.targets_ok(ts@),
            StmtBody::Reinstate(ts) => self.targets_ok(ts@),
            StmtBody::ReadOut(es) => exprs_ok(exprs_view(es), z),
            StmtBody::WriteIn(v) => var_ok(v@, z),
            _ => true,
        }
    }

    /// Whether a statement is in order: its body is, and the COME FROM
    /// that takes over behind it is a statement of the program.
    pub open spec fn stmt_ok(&self, s: Stmt) -> bool {
        &&& self.body_ok(s.body)
        &&& match s.comefrom {
            Some(t) => t < self.stmts.len(),
            None => true,
        }
    }

    /// Whether the program is fit to be evaluated: it has a statement, no
    /// more statement kinds than statements, and every statement is in
    /// order.
    pub open spec fn wf(&self) -> bool {
        &&& self.stmts.len() > 0
        &&& self.stmt_types.len() <= self.stmts.len()
        &&& forall|i: int| 0 <= i < self.stmts.len() ==> self.stmt_ok(#[trigger] self.stmts[i])
    }

    /// Finds out whether the program is fit to be evaluated.
    pub fn check(&self) -> (r: bool)
        ensures
            r == self.wf(),
    {
        if self.stmts.len() == 0 || self.stmt_types.len() > self.stmts.len() {
            return false;
        }
        let mut i: usize = 0;
        while i < self.stmts.len()
            invariant
                i <= self.stmts.len(),
                forall|j: int| 0 <= j < i ==> self.stmt_ok(#[trigger] self.stmts[j]),
            decreases self.stmts.len() - i,
        {
            if !self.check_stmt(&self.stmts[i]) {
                return false;
            }
            i += 1;
        }
        true
    }

    /// Finds out whether a statement is in order.
    pub fn check_stmt(&self, s: &Stmt) -> (r: bool)
        ensures
            r == self.stmt_ok(*s),
    {
        match s.comefrom {
            Some(t) => {
                if t >= self.stmts.len() {
                    return false;
                }
            },
            None => {},
        }
        let z = self.counts();
        match &s.body {
            StmtBody::Calc(v, e) => check_var(v, &z) && check_expr(e, &z),
            StmtBody::Dim(v, es) => is_array(v) && check_var(v, &z) && check_exprs(es, &z),
            StmtBody::Resume(e) => check_expr(e, &z),
            StmtBody::Forget(e) => check_expr(e, &z),
            StmtBody::Ignore(vs) => check_vars(vs, &z),
            StmtBody::Remember(vs) => check_vars(vs, &z),
            StmtBody::Stash(vs) => check_vars(vs, &z),
            StmtBody::Retrieve(vs) => check_vars(vs, &z),
            StmtBody::Abstain(ts) => self.check_targets(ts),
            StmtBody::Reinstate(ts) => self.check_targets(ts),
            StmtBody::ReadOut(es) => check_exprs(es, &z),
            StmtBody::WriteIn(v) => check_var(v, &z),
            _ => true,
        }
    }

    /// The sizes of the four variable tables.
    pub fn counts(&self) -> (z: Counts)
        ensures
            z@ == self.sizes(),
    {
        Counts {
            spot: self.var_info.0.len(),
            twospot: self.var_info.1.len(),
            tail: self.var_info.2.len(),
            hybrid: self.var_info.3.len(),
        }
    }

    /// Finds out whether every target of a list exists.
    pub fn check_targets(&self, ts: &Vec<Abstain>) -> (r: bool)
        ensures
            r == self.targets_ok(ts@),
    {
        let mut i: usize = 0;
        while i < ts.len()
            invariant
                i <= ts.len(),
                forall|j: int| 0 <= j < i ==> self.target_ok(#[trigger] ts@[j]),
            decreases ts.len() - i,
        {
            let ok = match ts[i] {
                Abstain::Label(l) => match find_label(&self.labels, l) {
                    Some(idx) => idx < self.stmts.len(),
                    None => false,
                },
                Abstain::StmtType(_) => true,
            };
            if !ok {
                assert(!self.target_ok(ts@[i as int]));
                return false;
            }
            i += 1;
        }
        true
    }
}

/// The number of variables of each class, as a program carries it.
pub struct Counts {
    pub spot: usize,
    pub twospot: usize,
    pub tail: usize,
    pub hybrid: usize,
}

impl View for Counts {
    type V = Sizes;

    open spec fn view(&self) -> Sizes {
        Sizes {
            spot: self.spot as nat,
            twospot: self.twospot as nat,
            tail: self.tail as nat,
            hybrid: self.hybrid as nat,
        }
    }
}

fn is_array(v: &Var) -> (r: bool)
    ensures
        r == v@.is_array(),
{
    match v {
        Var::A16(_, _) => true,
        Var::A32(_, _) => true,
        _ => false,
    }
}

/// Finds out whether an expression is in order.
pub fn check_expr(e: &Expr, z: &Counts) -> (r: bool)
    ensures
        r == expr_ok(e@, z@),
    decreases *e, 0nat,
{
    match e {
        Expr::Num(t, v) => match t {
            VType::I16 => *v <= 0xffff,
            VType::I32 => true,
        },
        Expr::Var(v) => check_var(v, z),
        Expr::Mingle(a, b) => check_expr(a, z) && check_expr(b, z),
        Expr::Select(a, b) => check_expr(a, z) && check_expr(b, z),
        Expr::And(_, a) => check_expr(a, z),
        Expr::Or(_, a) => check_expr(a, z),
        Expr::Xor(_, a) => check_expr(a, z),
        Expr::RsAnd(a, b) => check_expr(a, z) && check_expr(b, z),
        Expr::RsOr(a, b) => check_expr(a, z) && check_expr(b, z),
        Expr::RsXor(a, b) => check_expr(a, z) && check_expr(b, z),
        Expr::RsNot(a) => check_expr(a, z),
        Expr::RsRshift(a, b) => check_expr(a, z) && check_expr(b, z),
        Expr::RsLshift(a, b) => check_expr(a, z) && check_expr(b, z),
        Expr::RsPlus(a, b) => check_expr(a, z) && check_expr(b, z),
        Expr::RsMinus(a, b) => check_expr(a, z) && check_expr(b, z),
        Expr::RsNotEqual(a, b) => check_expr(a, z) && check_expr(b, z),
    }
}

/// Finds out whether every expression of a list is in order.
pub fn check_exprs(es: &Vec<Expr>, z: &Counts) -> (r: bool)
    ensures
        r == exprs_ok(exprs_view(*es), z@),
    decreases *es, 1nat,
{
    let mut i: usize = 0;
    while i < es.len()
        invariant
            i <= es.len(),
            forall|j: int| 0 <= j < i ==> expr_ok(#[trigger] exprs_view(*es)[j], z@),
        decreases es.len() - i,
    {
        assert(exprs_view(*es)[i as int] == es[i as int]@);
        if !check_expr(&es[i], z) {
            return false;
        }
        i += 1;
    }
    true
}

/// Finds out whether a variable is in order.
pub fn check_var(v: &Var, z: &Counts) -> (r: bool)
    ensures
        r == var_ok(v@, z@),
    decreases *v, 2nat,
{
    match v {
        Var::I16(n) => *n < z.spot,
        Var::I32(n) => *n < z.twospot,
        Var::A16(n, subs) => *n < z.tail && check_exprs(subs, z),
        Var::A32(n, subs) => *n < z.hybrid && check_exprs(subs, z),
    }
}

/// Finds out whether every variable of a list is in order.
pub fn check_vars(vs: &Vec<Var>, z: &Counts) -> (r: bool)
    ensures
        r == vars_ok(vars_view(*vs), z@),
{
    let mut i: usize = 0;
    while i < vs.len()
        invariant
            i <= vs.len(),
            forall|j: int| 0 <= j < i ==> var_ok(#[trigger] vars_view(*vs)[j], z@),
        decreases vs.len() - i,
    {
        assert(vars_view(*vs)[i as int] == vs[i as int]@);
        if !check_var(&vs[i], z) {
            return false;
        }
        i += 1;
    }
    true
}

} // verus!
