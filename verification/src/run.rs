//! The statement dispatch, one step of the statement pointer, and the main
//! loop of the evaluator.

use vstd::prelude::*;
use crate::ast::{exprs_view, Abstain, Expr, ExprV, Stmt, StmtBody, Var, VarV};
use crate::chance::{check_chance, seed_chance};
use crate::err::{ErrCode, Error, ErrorV, Res};
use crate::eval::{is_plain, Eval};
use crate::labels::find_label;
use crate::machine::{failure, Step};
use crate::sem::{
    abstain_all, advance, do_next, exec_stmt, forget, readout_all, resume, retrieve_all, run,
    set_rw_all, stash_all, step, Outcome, State, StmtRes, MAX_JUMPS,
};
use crate::valid::{exprs_ok, vars_ok, vars_view};

verus! {

/// The mathematical content of the result of a statement.
pub open spec fn stmt_result(r: Res<StmtRes>) -> Result<StmtRes, ErrorV> {
    match r {
        Ok(x) => Ok(x),
        Err(e) => Err(e@),
    }
}

/// The state with the statement pointer back at the first statement.
pub open spec fn restarted(st: State) -> State {
    State { pctr: 0, ..st }
}

/// How a run ended, as an outcome.
pub open spec fn run_result(r: Res<usize>) -> Outcome {
    match r {
        Ok(n) => Outcome::Done(n),
        Err(e) => Outcome::Failed(e@),
    }
}

/// Once a RETRIEVE of a list has failed, the rest of the list changes
/// nothing.
pub proof fn lemma_retrieve_error_sticks(st: State, vs: Seq<VarV>, n: nat, m: nat)
    requires
        n <= m,
        retrieve_all(st, vs, n).1 is Some,
    ensures
        retrieve_all(st, vs, m) == retrieve_all(st, vs, n),
    decreases m,
{
    if m > n {
        lemma_retrieve_error_sticks(st, vs, n, (m - 1) as nat);
    }
}

/// Once a READ OUT of a list has failed, the rest of the list changes
/// nothing.
pub proof fn lemma_readout_error_sticks(st: State, es: Seq<ExprV>, n: nat, m: nat)
    requires
        n <= m,
        readout_all(st, es, n).1 is Some,
    ensures
        readout_all(st, es, m) == readout_all(st, es, n),
    decreases m,
{
    if m > n {
        lemma_readout_error_sticks(st, es, n, (m - 1) as nat);
    }
}

impl<'a> Eval<'a> {
    /// Whether the statement pointer and the statement counter are where
    /// they were.
    pub open spec fn same_place(&self, before: &Eval<'a>) -> bool {
        self.pctr == before.pctr && self.stmt_ctr == before.stmt_ctr
    }

    /// Carries out NEXT: finds the statement that the label stands at.
    pub fn do_next(&self, label: u16) -> (r: Res<StmtRes>)
        requires
            self.wf(),
        ensures
            match r {
                Ok(x) => do_next(*self.program, self@, label) == Ok::<StmtRes, ErrCode>(x),
                Err(e) => do_next(*self.program, self@, label) == Err::<StmtRes, ErrCode>(e.code),
            },
            is_plain(r),
            r is Ok ==> self.jumps.len() < MAX_JUMPS,
    {
        match find_label(&self.program.labels, label) {
            None => Err(Error::new(ErrCode::IE129)),
            Some(i) => if self.jumps.len() >= MAX_JUMPS {
                Err(Error::new(ErrCode::IE123))
            } else {
                Ok(StmtRes::Jump(i))
            },
        }
    }

    /// Carries out RESUME with a depth.
    pub fn resume(&mut self, depth: u32) -> (r: Res<StmtRes>)
        requires
            old(self).wf(),
        ensures
            final(self).wf(),
            final(self).same_run(old(self)),
            final(self)@ == resume(old(self)@, depth).0,
            match r {
                Ok(x) => resume(old(self)@, depth).1 == Ok::<StmtRes, ErrCode>(x),
                Err(e) => resume(old(self)@, depth).1 == Err::<StmtRes, ErrCode>(e.code),
            },
            is_plain(r),
            match r {
                Ok(StmtRes::Back(n)) => n < old(self).program.stmts.len(),
                Ok(_) => false,
                Err(_) => true,
            },
    {
        if depth == 0 {
            return Err(Error::new(ErrCode::IE621));
        }
        let len = self.jumps.len();
        if len < depth as usize {
            return Err(Error::new(ErrCode::IE632));
        }
        let keep = len - depth as usize;
        let target = self.jumps[keep];
        self.jumps.truncate(keep);
        assert(self@.jumps =~= old(self)@.jumps.take(keep as int));
        Ok(StmtRes::Back(target))
    }

    /// Carries out FORGET with a depth. Cannot fail.
    pub fn forget(&mut self, depth: u32)
        requires
            old(self).wf(),
        ensures
            final(self).wf(),
            final(self).same_run(old(self)),
            final(self)@ == forget(old(self)@, depth),
    {
        let len = self.jumps.len();
        let keep = if len < depth as usize {
            0
        } else {
            len - depth as usize
        };
        self.jumps.truncate(keep);
        assert(self@.jumps =~= forget(old(self)@, depth).jumps);
    }

    /// Carries out IGNORE (`rw` clear) or REMEMBER (`rw` set) on a list of
    /// variables.
    pub fn set_rw_list(&mut self, vars: &Vec<Var>, rw: bool)
        requires
            old(self).wf(),
            vars_ok(vars_view(*vars), old(self).sizes()),
        ensures
            final(self).wf(),
            final(self).same_run(old(self)),
            final(self)@ == set_rw_all(old(self)@, vars_view(*vars), rw, vars.len() as nat),
            final(self).same_place(old(self)),
    {
        let mut i: usize = 0;
        while i < vars.len()
            invariant
                i <= vars.len(),
                self.wf(),
                self.same_run(old(self)),
                vars_ok(vars_view(*vars), self.sizes()),
                self@ == set_rw_all(old(self)@, vars_view(*vars), rw, i as nat),
                self.same_place(old(self)),
            decreases vars.len() - i,
        {
            assert(vars_view(*vars)[i as int] == vars[i as int]@);
            self.set_rw(&vars[i], rw);
            i += 1;
        }
    }

    /// Carries out STASH on a list of variables.
    pub fn stash_list(&mut self, vars: &Vec<Var>)
        requires
            old(self).wf(),
            vars_ok(vars_view(*vars), old(self).sizes()),
        ensures
            final(self).wf(),
            final(self).same_run(old(self)),
            final(self)@ == stash_all(old(self)@, vars_view(*vars), vars.len() as nat),
            final(self).same_place(old(self)),
    {
        let mut i: usize = 0;
        while i < vars.len()
            invariant
                i <= vars.len(),
                self.wf(),
                self.same_run(old(self)),
                vars_ok(vars_view(*vars), self.sizes()),
                self@ == stash_all(old(self)@, vars_view(*vars), i as nat),
                self.same_place(old(self)),
            decreases vars.len() - i,
        {
            assert(vars_view(*vars)[i as int] == vars[i as int]@);
            self.stash(&vars[i]);
            i += 1;
        }
    }

    /// Carries out RETRIEVE on a list of variables, up to the first that
    /// has nothing stashed.
    pub fn retrieve_list(&mut self, vars: &Vec<Var>) -> (r: Res<()>)
        requires
            old(self).wf(),
            vars_ok(vars_view(*vars), old(self).sizes()),
        ensures
            final(self).wf(),
            final(self).same_run(old(self)),
            (final(self)@, failure(r)) == retrieve_all(
                old(self)@,
                vars_view(*vars),
                vars.len() as nat,
            ),
            is_plain(r),
            final(self).same_place(old(self)),
    {
        let mut i: usize = 0;
        while i < vars.len()
            invariant
                i <= vars.len(),
                self.wf(),
                self.same_run(old(self)),
                vars_ok(vars_view(*vars), self.sizes()),
                retrieve_all(old(self)@, vars_view(*vars), i as nat) == (self@, None::<ErrCode>),
                self.same_place(old(self)),
            decreases vars.len() - i,
        {
            assert(vars_view(*vars)[i as int] == vars[i as int]@);
            match self.retrieve(&vars[i]) {
                Ok(_) => {},
                Err(e) => {
                    proof {
                        lemma_retrieve_error_sticks(
                            old(self)@,
                            vars_view(*vars),
                            (i + 1) as nat,
                            vars.len() as nat,
                        );
                    }
                    return Err(e);
                },
            }
            i += 1;
        }
        Ok(())
    }

    /// Carries out ABSTAIN (`flag` set) or REINSTATE (`flag` clear) on a
    /// list of targets.
    pub fn abstain_list(&mut self, whats: &Vec<Abstain>, flag: bool)
        requires
            old(self).wf(),
            old(self).program.targets_ok(whats@),
        ensures
            final(self).wf(),
            final(self).same_run(old(self)),
            final(self)@ == (State {
                abstain: abstain_all(
                    *old(self).program,
                    old(self)@.abstain,
                    whats@,
                    flag,
                    whats.len() as nat,
                ),
                ..old(self)@
            }),
    {
        let mut i: usize = 0;
        while i < whats.len()
            invariant
                i <= whats.len(),
                self.wf(),
                self.same_run(old(self)),
                self.program.targets_ok(whats@),
                self@ == (State {
                    abstain: abstain_all(
                        *old(self).program,
                        old(self)@.abstain,
                        whats@,
                        flag,
                        i as nat,
                    ),
                    ..old(self)@
                }),
            decreases whats.len() - i,
        {
            self.abstain(&whats[i], flag);
            i += 1;
        }
    }

    /// Carries out READ OUT on a list of items, up to the first that fails.
    pub fn read_out_list(&mut self, items: &Vec<Expr>) -> (r: Res<()>)
        requires
            old(self).wf(),
            exprs_ok(exprs_view(*items), old(self).sizes()),
        ensures
            final(self).wf(),
            final(self).same_run(old(self)),
            (final(self)@, failure(r)) == readout_all(
                old(self)@,
                exprs_view(*items),
                items.len() as nat,
            ),
            is_plain(r),
            final(self).same_place(old(self)),
    {
        let mut i: usize = 0;
        while i < items.len()
            invariant
                i <= items.len(),
                self.wf(),
                self.same_run(old(self)),
                exprs_ok(exprs_view(*items), self.sizes()),
                readout_all(old(self)@, exprs_view(*items), i as nat) == (self@, None::<ErrCode>),
                self.same_place(old(self)),
            decreases items.len() - i,
        {
            assert(exprs_view(*items)[i as int] == items[i as int]@);
            match self.read_out(&items[i]) {
                Ok(_) => {},
                Err(e) => {
                    proof {
                        lemma_readout_error_sticks(
                            old(self)@,
                            exprs_view(*items),
                            (i + 1) as nat,
                            items.len() as nat,
                        );
                    }
                    return Err(e);
                },
            }
            i += 1;
        }
        Ok(())
    }

    /// Writes bytes as they are.
    pub fn print(&mut self, bytes: &Vec<u8>)
        requires
            old(self).wf(),
        ensures
            final(self).wf(),
            final(self).same_run(old(self)),
            final(self)@ == (State { output: old(self)@.output + bytes@, ..old(self)@ }),
    {
        let mut i: usize = 0;
        while i < bytes.len()
            invariant
                i <= bytes.len(),
                self.wf(),
                self.same_run(old(self)),
                self@ == (State {
                    output: old(self)@.output + bytes@.take(i as int),
                    ..old(self)@
                }),
            decreases bytes.len() - i,
        {
            self.output.push(bytes[i]);
            assert(self@.output =~= old(self)@.output + bytes@.take(i + 1));
            i += 1;
        }
        assert(bytes@.take(bytes.len() as int) =~= bytes@);
    }

    /// Carries out one statement.
    pub fn eval_stmt(&mut self, stmt: &Stmt) -> (r: Res<StmtRes>)
        requires
            old(self).wf(),
            old(self).program.body_ok(stmt.body),
        ensures
            final(self).wf(),
            final(self).same_run(old(self)),
            (final(self)@, stmt_result(r)) == exec_stmt(
                *old(self).program,
                old(self).input@,
                old(self)@,
                stmt.body,
            ),
            match r {
                Ok(StmtRes::Back(n)) => n < old(self).program.stmts.len(),
                Ok(StmtRes::Jump(_)) => final(self).jumps.len() < MAX_JUMPS,
                _ => true,
            },
            final(self).same_place(old(self)),
    {
        reveal(exec_stmt);
        match &stmt.body {
            StmtBody::Calc(var, expr) => {
                let val = self.eval_expr(expr)?;
                self.assign(var, val)?;
                Ok(StmtRes::Next)
            },
            StmtBody::Dim(var, exprs) => {
                self.array_dim(var, exprs)?;
                Ok(StmtRes::Next)
            },
            StmtBody::DoNext(n) => self.do_next(*n),
            StmtBody::ComeFrom(_) => Ok(StmtRes::Next),
            StmtBody::Resume(expr) => {
                let n = self.eval_expr(expr)?.as_u32();
                self.resume(n)
            },
            StmtBody::Forget(expr) => {
                let n = self.eval_expr(expr)?.as_u32();
                self.forget(n);
                Ok(StmtRes::Next)
            },
            StmtBody::Ignore(vars) => {
                self.set_rw_list(vars, false);
                Ok(StmtRes::Next)
            },
            StmtBody::Remember(vars) => {
                self.set_rw_list(vars, true);
                Ok(StmtRes::Next)
            },
            StmtBody::Stash(vars) => {
                self.stash_list(vars);
                Ok(StmtRes::Next)
            },
            StmtBody::Retrieve(vars) => {
                self.retrieve_list(vars)?;
                Ok(StmtRes::Next)
            },
            StmtBody::Abstain(whats) => {
                self.abstain_list(whats, true);
                Ok(StmtRes::Next)
            },
            StmtBody::Reinstate(whats) => {
                self.abstain_list(whats, false);
                Ok(StmtRes::Next)
            },
            StmtBody::ReadOut(items) => {
                self.read_out_list(items)?;
                Ok(StmtRes::Next)
            },
            StmtBody::WriteIn(var) => {
                self.write_in(var)?;
                Ok(StmtRes::Next)
            },
            StmtBody::GiveUp => Ok(StmtRes::End),
            StmtBody::Print(bytes) => {
                self.print(bytes);
                Ok(StmtRes::Next)
            },
            StmtBody::Error(e) => Err(e.dup()),
        }
    }

    /// Moves the statement pointer on from a statement that is done.
    pub fn advance(&mut self)
        requires
            old(self).wf(),
            old(self).pctr < old(self).program.stmts.len(),
        ensures
            final(self).wf(),
            final(self).same_run(old(self)),
            final(self)@ == advance(*old(self).program, old(self)@),
    {
        let program = self.program;
        match program.stmts[self.pctr].comefrom {
            Some(next) => {
                if !self.abstain[next] {
                    self.pctr = next;
                } else {
                    self.pctr += 1;
                }
            },
            None => {
                self.pctr += 1;
            },
        }
    }

    /// One step of the evaluator, the draw for the statement given.
    pub fn step_with(&mut self, gate: bool) -> (r: Step)
        requires
            old(self).wf(),
        ensures
            final(self).wf(),
            final(self).same_run(old(self)),
            (final(self)@, r@) == step(*old(self).program, old(self).input@, old(self)@, gate),
            r is Running ==> final(self).stmt_ctr == old(self).stmt_ctr + 1,
    {
        reveal(step);
        let program = self.program;
        let nstmts = program.stmts.len();
        if self.pctr >= nstmts {
            let last = &program.stmts[nstmts - 1];
            assert(*last == program.stmts@.last());
            return Step::Failed(
                Error { code: ErrCode::IE663, line: Some(last.props.srcline), text: None },
            );
        }
        let here = self.pctr;
        let stmt = &program.stmts[here];
        if self.stmt_ctr == usize::MAX {
            return Step::Failed(
                Error { code: ErrCode::IE666, line: Some(stmt.props.srcline), text: None },
            );
        }
        self.stmt_ctr += 1;
        if self.abstain[here] || !(stmt.props.chance >= 100 || gate) {
            self.advance();
            return Step::Running;
        }
        let ghost s1 = self@;
        let r = self.eval_stmt(stmt);
        let ghost s2 = self@;
        assert((s2, stmt_result(r)) == exec_stmt(*program, self.input@, s1, stmt.body));
        match r {
            Err(e) => {
                let mut e = e;
                e.set_line(stmt.props.srcline);
                Step::Failed(e)
            },
            Ok(StmtRes::Next) => {
                self.advance();
                Step::Running
            },
            Ok(StmtRes::Jump(n)) => {
                self.jumps.push(here);
                self.pctr = n;
                Step::Running
            },
            Ok(StmtRes::Back(n)) => {
                self.pctr = n;
                self.advance();
                Step::Running
            },
            Ok(StmtRes::End) => Step::Done(self.stmt_ctr),
        }
    }

    /// Draws the chance of the statement at the pointer, if it runs by
    /// chance; where it does not, the answer is that the statement runs.
    fn draw(&self) -> (gate: bool)
        requires
            self.wf(),
        ensures
            !self.by_chance() ==> gate,
    {
        if self.pctr < self.program.stmts.len() && !self.abstain[self.pctr] {
            check_chance(self.program.stmts[self.pctr].props.chance)
        } else {
            true
        }
    }

    /// Whether the statement at the pointer runs by chance: it is a
    /// statement of the program, it is not abstained from, and its chance
    /// is below 100.
    pub open spec fn by_chance(&self) -> bool {
        &&& self.pctr < self.program.stmts.len()
        &&& !self.abstain[self.pctr as int]
        &&& self.program.stmts[self.pctr as int].props.chance < 100
    }

    /// One step of the evaluator. Where the statement at the pointer runs
    /// by chance, the chance is drawn.
    pub fn step(&mut self) -> (r: Step)
        requires
            old(self).wf(),
        ensures
            final(self).wf(),
            final(self).same_run(old(self)),
            exists|gate: bool|
                (final(self)@, r@) == #[trigger] step(
                    *old(self).program,
                    old(self).input@,
                    old(self)@,
                    gate,
                ),
            r is Running ==> final(self).stmt_ctr == old(self).stmt_ctr + 1,
    {
        let gate = self.draw();
        self.step_with(gate)
    }

    /// Runs the program from its first statement until it gives up or
    /// fails, and returns the number of statements that it reached.
    pub fn eval(&mut self) -> (r: Res<usize>)
        requires
            old(self).wf(),
        ensures
            final(self).wf(),
            final(self).same_run(old(self)),
            exists|gates: Seq<bool>|
                #[trigger] run(
                    *old(self).program,
                    old(self).input@,
                    restarted(old(self)@),
                    gates,
                ) == (final(self)@, run_result(r)),
    {
        self.pctr = 0;
        seed_chance();
        let ghost start = self@;
        let ghost mut gates: Seq<bool> = Seq::empty();
        loop
            invariant
                self.wf(),
                self.same_run(old(self)),
                start == restarted(old(self)@),
                run(*self.program, self.input@, start, gates) == (self@, Outcome::Running),
            decreases usize::MAX - self.stmt_ctr,
        {
            let ghost so_far = gates;
            let gate = self.draw();
            let r = self.step_with(gate);
            proof {
                gates = so_far.push(gate);
                assert(gates.drop_last() =~= so_far);
                assert(gates.last() == gate);
            }
            match r {
                Step::Running => {},
                Step::Done(n) => {
                    assert(run(*old(self).program, old(self).input@, restarted(old(self)@), gates)
                        == (self@, Outcome::Done(n)));
                    return Ok(n);
                },
                Step::Failed(e) => {
                    assert(run(*old(self).program, old(self).input@, restarted(old(self)@), gates)
                        == (self@, Outcome::Failed(e@)));
                    return Err(e);
                },
            }
        }
    }
}

} // verus!
