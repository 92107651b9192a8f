//! The program as the parser hands it over: statements, expressions,
//! variables and the tables that go with them, each with the mathematical
//! value that contracts speak of.

use std::collections::BTreeMap;
use vstd::prelude::*;
use crate::err::Error;

verus! {

/// The width of a value: 16 or 32 bits.
#[derive(Clone, Copy, PartialEq, Eq, Debug, Structural)]
pub enum VType {
    I16,
    I32,
}

/// The three bitwise operations that INTERCAL has as unary operators and
/// the host as binary ones.
#[derive(Clone, Copy, PartialEq, Eq, Debug, Structural)]
pub enum BitOp {
    And,
    Or,
    Xor,
}

/// An expression. The first seven variants are INTERCAL's own; the `Rs`
/// family is the host arithmetic that the optimizer puts in their place.
#[derive(Debug, PartialEq, Eq)]
pub enum Expr {
    Num(VType, u32),
    Var(Var),
    Mingle(Box<Expr>, Box<Expr>),
    Select(Box<Expr>, Box<Expr>),
    And(VType, Box<Expr>),
    Or(VType, Box<Expr>),
    Xor(VType, Box<Expr>),
    RsAnd(Box<Expr>, Box<Expr>),
    RsOr(Box<Expr>, Box<Expr>),
    RsXor(Box<Expr>, Box<Expr>),
    RsNot(Box<Expr>),
    RsRshift(Box<Expr>, Box<Expr>),
    RsLshift(Box<Expr>, Box<Expr>),
    RsPlus(Box<Expr>, Box<Expr>),
    RsMinus(Box<Expr>, Box<Expr>),
    RsNotEqual(Box<Expr>, Box<Expr>),
}

/// A reference to a variable: a scalar by its index, an array element by
/// the array's index and the subscripts, which are evaluated on access. An
/// array named without subscripts stands for the whole array.
#[derive(Debug, PartialEq, Eq)]
pub enum Var {
    I16(usize),
    I32(usize),
    A16(usize, Vec<Expr>),
    A32(usize, Vec<Expr>),
}

/// The mathematical value of an [`Expr`].
pub ghost enum ExprV {
    Num(VType, u32),
    Var(VarV),
    Mingle(Box<ExprV>, Box<ExprV>),
    Select(Box<ExprV>, Box<ExprV>),
    And(VType, Box<ExprV>),
    Or(VType, Box<ExprV>),
    Xor(VType, Box<ExprV>),
    RsAnd(Box<ExprV>, Box<ExprV>),
    RsOr(Box<ExprV>, Box<ExprV>),
    RsXor(Box<ExprV>, Box<ExprV>),
    RsNot(Box<ExprV>),
    RsRshift(Box<ExprV>, Box<ExprV>),
    RsLshift(Box<ExprV>, Box<ExprV>),
    RsPlus(Box<ExprV>, Box<ExprV>),
    RsMinus(Box<ExprV>, Box<ExprV>),
    RsNotEqual(Box<ExprV>, Box<ExprV>),
}

/// The mathematical value of a [`Var`].
pub ghost enum VarV {
    I16(usize),
    I32(usize),
    A16(usize, Seq<ExprV>),
    A32(usize, Seq<ExprV>),
}

/// The mathematical value of an expression.
pub open spec fn expr_view(e: Expr) -> ExprV
    decreases e,
{
    match e {
        Expr::Num(t, v) => ExprV::Num(t, v),
        Expr::Var(v) => ExprV::Var(var_view(v)),
        Expr::Mingle(a, b) => ExprV::Mingle(Box::new(expr_view(*a)), Box::new(expr_view(*b))),
        Expr::Select(a, b) => ExprV::Select(Box::new(expr_view(*a)), Box::new(expr_view(*b))),
        Expr::And(t, a) => ExprV::And(t, Box::new(expr_view(*a))),
        Expr::Or(t, a) => ExprV::Or(t, Box::new(expr_view(*a))),
        Expr::Xor(t, a) => ExprV::Xor(t, Box::new(expr_view(*a))),
        Expr::RsAnd(a, b) => ExprV::RsAnd(Box::new(expr_view(*a)), Box::new(expr_view(*b))),
        Expr::RsOr(a, b) => ExprV::RsOr(Box::new(expr_view(*a)), Box::new(expr_view(*b))),
        Expr::RsXor(a, b) => ExprV::RsXor(Box::new(expr_view(*a)), Box::new(expr_view(*b))),
        Expr::RsNot(a) => ExprV::RsNot(Box::new(expr_view(*a))),
        Expr::RsRshift(a, b) => ExprV::RsRshift(
            Box::new(expr_view(*a)),
            Box::new(expr_view(*b)),
        ),
        Expr::RsLshift(a, b) => ExprV::RsLshift(
            Box::new(expr_view(*a)),
            Box::new(expr_view(*b)),
        ),
        Expr::RsPlus(a, b) => ExprV::RsPlus(Box::new(expr_view(*a)), Box::new(expr_view(*b))),
        Expr::RsMinus(a, b) => ExprV::RsMinus(Box::new(expr_view(*a)), Box::new(expr_view(*b))),
        Expr::RsNotEqual(a, b) => ExprV::RsNotEqual(
            Box::new(expr_view(*a)),
            Box::new(expr_view(*b)),
        ),
    }
}

/// The values of a list of expressions, in order.
pub open spec fn exprs_view(es: Vec<Expr>) -> Seq<ExprV>
    decreases es,
{
    Seq::new(
        es.len() as nat,
        |i: int|
            if 0 <= i < es.len() {
                expr_view(es[i])
            } else {
                ExprV::Num(VType::I16, 0)
            },
    )
}

/// The mathematical value of a variable reference.
pub open spec fn var_view(v: Var) -> VarV
    decreases v,
{
    match v {
        Var::I16(n) => VarV::I16(n),
        Var::I32(n) => VarV::I32(n),
        Var::A16(n, subs) => VarV::A16(n, exprs_view(subs)),
        Var::A32(n, subs) => VarV::A32(n, exprs_view(subs)),
    }
}

impl View for Expr {
    type V = ExprV;

    open spec fn view(&self) -> ExprV {
        expr_view(*self)
    }
}

impl View for Var {
    type V = VarV;

    open spec fn view(&self) -> VarV {
        var_view(*self)
    }
}

impl VarV {
    /// The index of the variable within its class.
    pub open spec fn index(self) -> usize {
        match self {
            VarV::I16(n) => n,
            VarV::I32(n) => n,
            VarV::A16(n, _) => n,
            VarV::A32(n, _) => n,
        }
    }

    /// Whether this names an array or an element of one.
    pub open spec fn is_array(self) -> bool {
        self is A16 || self is A32
    }

    /// The subscripts, empty for a scalar.
    pub open spec fn subs(self) -> Seq<ExprV> {
        match self {
            VarV::A16(_, s) => s,
            VarV::A32(_, s) => s,
            _ => Seq::empty(),
        }
    }

    /// Whether this names a whole array: an array without subscripts.
    pub open spec fn is_dim(self) -> bool {
        self.is_array() && self.subs().len() == 0
    }
}

impl Var {
    /// Whether this names a whole array, as DIM, array READ OUT and array
    /// WRITE IN do.
    pub fn is_dim(&self) -> (r: bool)
        ensures
            r == self@.is_dim(),
    {
        match self {
            Var::A16(_, subs) => subs.len() == 0,
            Var::A32(_, subs) => subs.len() == 0,
            _ => false,
        }
    }

    /// A copy of the variable reference.
    pub fn dup(&self) -> (r: Var)
        ensures
            r@ == self@,
        decreases *self, 1nat,
    {
        match self {
            Var::I16(n) => Var::I16(*n),
            Var::I32(n) => Var::I32(*n),
            Var::A16(n, subs) => Var::A16(*n, dup_exprs(subs)),
            Var::A32(n, subs) => Var::A32(*n, dup_exprs(subs)),
        }
    }

    /// Structural equality.
    pub fn same(&self, other: &Var) -> (r: bool)
        ensures
            r == (self@ == other@),
        decreases *self, 1nat,
    {
        match (self, other) {
            (Var::I16(n), Var::I16(m)) => *n == *m,
            (Var::I32(n), Var::I32(m)) => *n == *m,
            (Var::A16(n, s), Var::A16(m, t)) => *n == *m && same_exprs(s, t),
            (Var::A32(n, s), Var::A32(m, t)) => *n == *m && same_exprs(s, t),
            _ => false,
        }
    }
}

/// A copy of a list of expressions.
pub fn dup_exprs(es: &Vec<Expr>) -> (r: Vec<Expr>)
    ensures
        exprs_view(r) == exprs_view(*es),
    decreases *es, 0nat,
{
    let mut out: Vec<Expr> = Vec::new();
    let mut i: usize = 0;
    while i < es.len()
        invariant
            i <= es.len(),
            out.len() == i,
            forall|j: int| 0 <= j < i ==> expr_view(out[j]) == expr_view(es[j]),
        decreases es.len() - i,
    {
        let e = es[i].dup();
        out.push(e);
        i += 1;
    }
    assert(exprs_view(out) =~= exprs_view(*es));
    out
}

/// Structural equality of two lists of expressions.
pub fn same_exprs(a: &Vec<Expr>, b: &Vec<Expr>) -> (r: bool)
    ensures
        r == (exprs_view(*a) == exprs_view(*b)),
    decreases *a, 0nat,
{
    if a.len() != b.len() {
        assert(exprs_view(*a).len() != exprs_view(*b).len());
        return false;
    }
    let mut i: usize = 0;
    while i < a.len()
        invariant
            i <= a.len(),
            a.len() == b.len(),
            forall|j: int| 0 <= j < i ==> expr_view(a[j]) == expr_view(b[j]),
        decreases a.len() - i,
    {
        if !a[i].same(&b[i]) {
            assert(exprs_view(*a)[i as int] != exprs_view(*b)[i as int]);
            return false;
        }
        i += 1;
    }
    assert(exprs_view(*a) =~= exprs_view(*b));
    true
}

impl Expr {
    /// A copy of the expression.
    pub fn dup(&self) -> (r: Expr)
        ensures
            r@ == self@,
        decreases *self, 2nat,
    {
        match self {
            Expr::Num(t, v) => Expr::Num(*t, *v),
            Expr::Var(v) => Expr::Var(v.dup()),
            Expr::Mingle(a, b) => Expr::Mingle(Box::new(a.dup()), Box::new(b.dup())),
            Expr::Select(a, b) => Expr::Select(Box::new(a.dup()), Box::new(b.dup())),
            Expr::And(t, a) => Expr::And(*t, Box::new(a.dup())),
            Expr::Or(t, a) => Expr::Or(*t, Box::new(a.dup())),
            Expr::Xor(t, a) => Expr::Xor(*t, Box::new(a.dup())),
            Expr::RsAnd(a, b) => Expr::RsAnd(Box::new(a.dup()), Box::new(b.dup())),
            Expr::RsOr(a, b) => Expr::RsOr(Box::new(a.dup()), Box::new(b.dup())),
            Expr::RsXor(a, b) => Expr::RsXor(Box::new(a.dup()), Box::new(b.dup())),
            Expr::RsNot(a) => Expr::RsNot(Box::new(a.dup())),
            Expr::RsRshift(a, b) => Expr::RsRshift(Box::new(a.dup()), Box::new(b.dup())),
            Expr::RsLshift(a, b) => Expr::RsLshift(Box::new(a.dup()), Box::new(b.dup())),
            Expr::RsPlus(a, b) => Expr::RsPlus(Box::new(a.dup()), Box::new(b.dup())),
            Expr::RsMinus(a, b) => Expr::RsMinus(Box::new(a.dup()), Box::new(b.dup())),
            Expr::RsNotEqual(a, b) => Expr::RsNotEqual(Box::new(a.dup()), Box::new(b.dup())),
        }
    }

    /// Structural equality.
    pub fn same(&self, other: &Expr) -> (r: bool)
        ensures
            r == (self@ == other@),
        decreases *self, 2nat,
    {
        match (self, other) {
            (Expr::Num(t, v), Expr::Num(u, w)) => *t == *u && *v == *w,
            (Expr::Var(v), Expr::Var(w)) => v.same(w),
            (Expr::Mingle(a, b), Expr::Mingle(c, d)) => a.same(c) && b.same(d),
            (Expr::Select(a, b), Expr::Select(c, d)) => a.same(c) && b.same(d),
            (Expr::And(t, a), Expr::And(u, c)) => *t == *u && a.same(c),
            (Expr::Or(t, a), Expr::Or(u, c)) => *t == *u && a.same(c),
            (Expr::Xor(t, a), Expr::Xor(u, c)) => *t == *u && a.same(c),
            (Expr::RsAnd(a, b), Expr::RsAnd(c, d)) => a.same(c) && b.same(d),
            (Expr::RsOr(a, b), Expr::RsOr(c, d)) => a.same(c) && b.same(d),
            (Expr::RsXor(a, b), Expr::RsXor(c, d)) => a.same(c) && b.same(d),
            (Expr::RsNot(a), Expr::RsNot(c)) => a.same(c),
            (Expr::RsRshift(a, b), Expr::RsRshift(c, d)) => a.same(c) && b.same(d),
            (Expr::RsLshift(a, b), Expr::RsLshift(c, d)) => a.same(c) && b.same(d),
            (Expr::RsPlus(a, b), Expr::RsPlus(c, d)) => a.same(c) && b.same(d),
            (Expr::RsMinus(a, b), Expr::RsMinus(c, d)) => a.same(c) && b.same(d),
            (Expr::RsNotEqual(a, b), Expr::RsNotEqual(c, d)) => a.same(c) && b.same(d),
            _ => false,
        }
    }
}

/// What ABSTAIN and REINSTATE aim at: one labelled statement, or every
/// statement of one kind.
#[derive(Clone, Copy, PartialEq, Eq, Debug, Structural)]
pub enum Abstain {
    Label(u16),
    StmtType(StmtType),
}

/// The kinds of statement that ABSTAIN and REINSTATE tell apart. A
/// statement that no gerund reaches is `Other`.
#[derive(Clone, Copy, PartialEq, Eq, Debug, Structural)]
pub enum StmtType {
    Calc,
    Next,
    Resume,
    Forget,
    Ignore,
    Remember,
    Stash,
    Retrieve,
    Abstain,
    Reinstate,
    ComeFrom,
    ReadOut,
    WriteIn,
    Other,
}

/// What a statement does.
#[derive(Debug, PartialEq, Eq)]
pub enum StmtBody {
    Calc(Var, Expr),
    Dim(Var, Vec<Expr>),
    DoNext(u16),
    ComeFrom(u16),
    Resume(Expr),
    Forget(Expr),
    Ignore(Vec<Var>),
    Remember(Vec<Var>),
    Stash(Vec<Var>),
    Retrieve(Vec<Var>),
    Abstain(Vec<Abstain>),
    Reinstate(Vec<Abstain>),
    ReadOut(Vec<Expr>),
    WriteIn(Var),
    GiveUp,
    /// Emits the bytes as they are. Only the optimizer makes it.
    Print(Vec<u8>),
    /// Fails with the error it carries.
    Error(Error),
}

/// What the parser records of a statement besides its body.
#[derive(Clone, Copy, PartialEq, Eq, Debug, Structural)]
pub struct StmtProps {
    /// The source line.
    pub srcline: usize,
    /// The chance of execution in percent; 100 is unconditional.
    pub chance: u8,
    /// Whether the statement starts out abstained from.
    pub disabled: bool,
    /// The label, 0 if there is none.
    pub label: u16,
}

/// A statement.
#[derive(Debug, PartialEq, Eq)]
pub struct Stmt {
    pub body: StmtBody,
    pub props: StmtProps,
    /// The index of the COME FROM statement that takes over once this
    /// statement is done, if there is one.
    pub comefrom: Option<usize>,
    /// Whether some ABSTAIN or REINSTATE can reach the statement.
    pub can_abstain: bool,
}

/// What the optimizer records of a variable.
#[derive(Clone, Copy, PartialEq, Eq, Debug, Structural)]
pub struct VarInfo {
    pub can_stash: bool,
    pub can_ignore: bool,
}

/// A parsed program.
#[derive(Debug, PartialEq, Eq)]
pub struct Program {
    pub stmts: Vec<Stmt>,
    /// The statement that each label stands at.
    pub labels: BTreeMap<u16, usize>,
    /// The kind of each statement, by its index.
    pub stmt_types: Vec<StmtType>,
    /// One table for each class of variable: 16-bit scalars, 32-bit
    /// scalars, 16-bit arrays, 32-bit arrays.
    pub var_info: (Vec<VarInfo>, Vec<VarInfo>, Vec<VarInfo>, Vec<VarInfo>),
    pub uses_complex_comefrom: bool,
    pub added_syslib: bool,
    pub added_floatlib: bool,
    /// The line reserved for falling off the end of the program.
    pub bugline: u16,
}

impl Stmt {
    /// A statement with the given body and default properties: unlabelled,
    /// unconditional, enabled.
    pub fn new_with(body: StmtBody) -> (s: Stmt)
        ensures
            s.body == body,
            s.props == (StmtProps { srcline: 0, chance: 100, disabled: false, label: 0 }),
            s.comefrom is None,
            s.can_abstain,
    {
        Stmt {
            body,
            props: StmtProps { srcline: 0, chance: 100, disabled: false, label: 0 },
            comefrom: None,
            can_abstain: true,
        }
    }
}

} // verus!
