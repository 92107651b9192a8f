//! The evaluator: a statement pointer that walks a program, with the
//! variable store, the NEXT stack and the abstain flags that the
//! statements work on. Input is taken from a buffer and output is
//! collected in one.

use vstd::prelude::*;
use crate::ast::{BitOp, Expr, exprs_view, ExprV, Program, Var, VType};
use crate::bits::{and_16, and_32, mingle, or_16, or_32, select, xor_16, xor_32};
use crate::err::{ErrCode, plain, Res};
use crate::sem::{
    eval_expr, eval_subs, lookup, MAX_JUMPS, shift_left, shift_right, State, unary_value, wrap_add,
    wrap_sub,
};
use crate::store::{Array, ArrayV, Bind, BindV};
use crate::val::Val;
use crate::valid::{expr_ok, exprs_ok, var_ok, Sizes};

verus! {

/// An evaluation in progress.
pub struct Eval<'a> {
    pub program: &'a Program,
    /// The whole input.
    pub input: Vec<u8>,
    pub spot: Vec<Bind<u16>>,
    pub twospot: Vec<Bind<u32>>,
    pub tail: Vec<Bind<Array<u16>>>,
    pub hybrid: Vec<Bind<Array<u32>>>,
    pub jumps: Vec<usize>,
    pub abstain: Vec<bool>,
    pub last_in: u8,
    pub last_out: u8,
    pub stmt_ctr: usize,
    pub pctr: usize,
    pub in_pos: usize,
    pub output: Vec<u8>,
}

/// The mathematical content of a row of cells.
pub open spec fn cells_view<T: View>(cells: Vec<Bind<T>>) -> Seq<BindV<T::V>> {
    Seq::new(cells.len() as nat, |i: int| cells[i]@)
}

/// Whether an array cell holds sound arrays, in its value and in
/// everything it has stashed.
pub open spec fn cell_wf<T>(c: BindV<ArrayV<T>>) -> bool {
    &&& c.val.wf()
    &&& forall|k: int| 0 <= k < c.stack.len() ==> (#[trigger] c.stack[k]).0.wf()
}

/// Whether a state fits a program and an input: a cell for each variable,
/// a flag for each statement, a NEXT stack within its bound that holds
/// statements of the program, and sound arrays.
pub open spec fn state_wf(p: Program, input: Seq<u8>, st: State) -> bool {
    &&& st.spot.len() == p.sizes().spot
    &&& st.twospot.len() == p.sizes().twospot
    &&& st.tail.len() == p.sizes().tail
    &&& st.hybrid.len() == p.sizes().hybrid
    &&& st.abstain.len() == p.stmts.len()
    &&& st.jumps.len() <= MAX_JUMPS
    &&& forall|j: int| 0 <= j < st.jumps.len() ==> #[trigger] st.jumps[j] < p.stmts.len()
    &&& forall|i: int| 0 <= i < st.tail.len() ==> cell_wf(#[trigger] st.tail[i])
    &&& forall|i: int| 0 <= i < st.hybrid.len() ==> cell_wf(#[trigger] st.hybrid[i])
    &&& st.in_pos <= input.len()
}

impl<'a> View for Eval<'a> {
    type V = State;

    open spec fn view(&self) -> State {
        State {
            spot: cells_view(self.spot),
            twospot: cells_view(self.twospot),
            tail: cells_view(self.tail),
            hybrid: cells_view(self.hybrid),
            jumps: self.jumps@,
            abstain: self.abstain@,
            last_in: self.last_in,
            last_out: self.last_out,
            stmt_ctr: self.stmt_ctr,
            pctr: self.pctr,
            in_pos: self.in_pos,
            output: self.output@,
        }
    }
}

/// The result of an evaluation that can fail without line or text: the
/// value, or the kind of the error.
pub open spec fn outcome<T>(r: Res<T>) -> Result<T, ErrCode> {
    match r {
        Ok(x) => Ok(x),
        Err(e) => Err(e.code),
    }
}

/// Whether an error, if it is one, carries neither line nor text.
pub open spec fn is_plain<T>(r: Res<T>) -> bool {
    match r {
        Ok(_) => true,
        Err(e) => e@ == plain(e.code),
    }
}

fn rs_plus(x: u32, y: u32) -> (r: u32)
    ensures
        r == wrap_add(x, y),
{
    ((x as u64 + y as u64) % 0x1_0000_0000) as u32
}

fn rs_minus(x: u32, y: u32) -> (r: u32)
    ensures
        r == wrap_sub(x, y),
{
    ((x as u64 + 0x1_0000_0000 - y as u64) % 0x1_0000_0000) as u32
}

fn rs_rshift(x: u32, k: u32) -> (r: u32)
    ensures
        r == shift_right(x, k),
{
    if k < 32 {
        x >> k
    } else {
        0
    }
}

fn rs_lshift(x: u32, k: u32) -> (r: u32)
    ensures
        r == shift_left(x, k),
{
    if k < 32 {
        x << k
    } else {
        0
    }
}

fn unary(op: BitOp, x: Val) -> (r: Val)
    ensures
        r == unary_value(op, x),
{
    match x {
        Val::I16(v) => Val::I16(
            match op {
                BitOp::And => and_16(v),
                BitOp::Or => or_16(v),
                BitOp::Xor => xor_16(v),
            },
        ),
        Val::I32(v) => Val::I32(
            match op {
                BitOp::And => and_32(v),
                BitOp::Or => or_32(v),
                BitOp::Xor => xor_32(v),
            },
        ),
    }
}

impl<'a> Eval<'a> {
    /// Whether the evaluation is sound: its program is, and its state fits
    /// the program and the input.
    pub open spec fn wf(&self) -> bool {
        &&& self.program.wf()
        &&& state_wf(*self.program, self.input@, self@)
    }

    /// The sizes of the variable tables of the program.
    pub open spec fn sizes(&self) -> Sizes {
        self.program.sizes()
    }

    /// Evaluates an expression to a value.
    pub fn eval_expr(&self, expr: &Expr) -> (r: Res<Val>)
        requires
            self.wf(),
            expr_ok(expr@, self.sizes()),
        ensures
            outcome(r) == eval_expr(self@, expr@),
            is_plain(r),
        decreases *expr, 0nat,
    {
        match expr {
            Expr::Num(t, v) => match t {
                VType::I16 => Ok(Val::I16(#[verifier::truncate] (*v as u16))),
                VType::I32 => Ok(Val::I32(*v)),
            },
            Expr::Var(var) => self.lookup(var),
            Expr::Mingle(vx, wx) => {
                let v = self.eval_expr(vx)?.as_u32();
                let w = self.eval_expr(wx)?.as_u32();
                Ok(Val::I32(mingle(v, w)?))
            },
            Expr::Select(vx, wx) => {
                let v = self.eval_expr(vx)?.as_u32();
                let w = self.eval_expr(wx)?.as_u32();
                Ok(Val::I32(select(v, w)))
            },
            Expr::And(_, vx) => Ok(unary(BitOp::And, self.eval_expr(vx)?)),
            Expr::Or(_, vx) => Ok(unary(BitOp::Or, self.eval_expr(vx)?)),
            Expr::Xor(_, vx) => Ok(unary(BitOp::Xor, self.eval_expr(vx)?)),
            Expr::RsAnd(vx, wx) => {
                let v = self.eval_expr(vx)?.as_u32();
                let w = self.eval_expr(wx)?.as_u32();
                Ok(Val::from_u32(v & w))
            },
            Expr::RsOr(vx, wx) => {
                let v = self.eval_expr(vx)?.as_u32();
                let w = self.eval_expr(wx)?.as_u32();
                Ok(Val::from_u32(v | w))
            },
            Expr::RsXor(vx, wx) => {
                let v = self.eval_expr(vx)?.as_u32();
                let w = self.eval_expr(wx)?.as_u32();
                Ok(Val::from_u32(v ^ w))
            },
            Expr::RsNot(vx) => {
                let v = self.eval_expr(vx)?.as_u32();
                Ok(Val::from_u32(!v))
            },
            Expr::RsRshift(vx, wx) => {
                let v = self.eval_expr(vx)?.as_u32();
                let w = self.eval_expr(wx)?.as_u32();
                Ok(Val::from_u32(rs_rshift(v, w)))
            },
            Expr::RsLshift(vx, wx) => {
                let v = self.eval_expr(vx)?.as_u32();
                let w = self.eval_expr(wx)?.as_u32();
                Ok(Val::from_u32(rs_lshift(v, w)))
            },
            Expr::RsPlus(vx, wx) => {
                let v = self.eval_expr(vx)?.as_u32();
                let w = self.eval_expr(wx)?.as_u32();
                Ok(Val::from_u32(rs_plus(v, w)))
            },
            Expr::RsMinus(vx, wx) => {
                let v = self.eval_expr(vx)?.as_u32();
                let w = self.eval_expr(wx)?.as_u32();
                Ok(Val::from_u32(rs_minus(v, w)))
            },
            Expr::RsNotEqual(vx, wx) => {
                let v = self.eval_expr(vx)?.as_u32();
                let w = self.eval_expr(wx)?.as_u32();
                Ok(Val::from_u32(if v != w {
                    1
                } else {
                    0
                }))
            },
        }
    }

    /// Evaluates the expressions of a list in order, up to the first error.
    pub fn eval_subs(&self, subs: &Vec<Expr>) -> (r: Res<Vec<usize>>)
        requires
            self.wf(),
            exprs_ok(exprs_view(*subs), self.sizes()),
        ensures
            match r {
                Ok(s) => eval_subs(self@, exprs_view(*subs), subs.len() as nat) == Ok::<
                    Seq<usize>,
                    ErrCode,
                >(s@),
                Err(e) => eval_subs(self@, exprs_view(*subs), subs.len() as nat) == Err::<
                    Seq<usize>,
                    ErrCode,
                >(e.code),
            },
            is_plain(r),
        decreases *subs, 1nat,
    {
        let mut out: Vec<usize> = Vec::new();
        let mut i: usize = 0;
        let ghost es = exprs_view(*subs);
        while i < subs.len()
            invariant
                i <= subs.len(),
                self.wf(),
                es == exprs_view(*subs),
                exprs_ok(es, self.sizes()),
                eval_subs(self@, es, i as nat) == Ok::<Seq<usize>, ErrCode>(out@),
            decreases subs.len() - i,
        {
            assert(es[i as int] == subs[i as int]@);
            match self.eval_expr(&subs[i]) {
                Ok(x) => {
                    out.push(x.as_usize());
                },
                Err(e) => {
                    proof {
                        lemma_subs_error_sticks(self@, es, (i + 1) as nat, subs.len() as nat);
                    }
                    return Err(e);
                },
            }
            i += 1;
        }
        Ok(out)
    }

    /// Looks up the value of a variable.
    pub fn lookup(&self, var: &Var) -> (r: Res<Val>)
        requires
            self.wf(),
            var_ok(var@, self.sizes()),
        ensures
            outcome(r) == lookup(self@, var@),
            is_plain(r),
        decreases *var, 2nat,
    {
        match var {
            Var::I16(n) => Ok(Val::I16(self.spot[*n].val)),
            Var::I32(n) => Ok(Val::I32(self.twospot[*n].val)),
            Var::A16(n, subs) => {
                let s = self.eval_subs(subs)?;
                assert(cell_wf(self@.tail[*n as int]));
                Ok(Val::I16(self.tail[*n].arr_lookup(&s)?))
            },
            Var::A32(n, subs) => {
                let s = self.eval_subs(subs)?;
                assert(cell_wf(self@.hybrid[*n as int]));
                Ok(Val::I32(self.hybrid[*n].arr_lookup(&s)?))
            },
        }
    }
}

/// Once an expression of a list fails, the list fails in the same way
/// however far it is evaluated.
pub proof fn lemma_subs_error_sticks(st: State, subs: Seq<ExprV>, n: nat, m: nat)
    requires
        n <= m <= subs.len(),
        eval_subs(st, subs, n) is Err,
    ensures
        eval_subs(st, subs, m) == eval_subs(st, subs, n),
    decreases m,
{
    if m > n {
        lemma_subs_error_sticks(st, subs, n, (m - 1) as nat);
    }
}

} // verus!
