//! The statements as the evaluator carries them out, one step of the
//! statement pointer, and the run of a whole program.

use vstd::prelude::*;
use vstd::slice::slice_subrange;
use vstd::string::{StrSliceExecFns, StringSliceAdditionalSpecFns};
use crate::ast::{Abstain, Expr, exprs_view, Program, Var};
use crate::cells::{cell_assign, cell_retrieve, cell_set_rw, cell_stash};
use crate::english::from_english;
use crate::err::{plain, ErrCode, Error, ErrorV, Res};
use crate::eval::{cell_wf, cells_view, Eval, is_plain};
use crate::labels::find_label;
use crate::roman::to_roman;
use crate::sem::{
    abstain_one, array_readout, array_writein, assign, dim, line_end, Outcome, read_number,
    readout_one, retrieve, roman_bytes, run, set_rw, stash, stashed, State, step, writein,
};
use crate::store::{Array, ArrayV, Bind, BindV};
use crate::text::utf8_text;
use crate::val::Val;
use crate::valid::{expr_ok, exprs_ok, var_ok};

verus! {

/// How a step of the evaluator ends.
#[derive(Debug, PartialEq, Eq)]
pub enum Step {
    /// The program goes on.
    Running,
    /// The program gave up after so many statements.
    Done(usize),
    /// The program failed.
    Failed(Error),
}

impl View for Step {
    type V = Outcome;

    open spec fn view(&self) -> Outcome {
        match self {
            Step::Running => Outcome::Running,
            Step::Done(n) => Outcome::Done(*n),
            Step::Failed(e) => Outcome::Failed(e@),
        }
    }
}

/// The kind of the error, if the result is one.
pub open spec fn failure<T>(r: Res<T>) -> Option<ErrCode> {
    match r {
        Ok(_) => None,
        Err(e) => Some(e.code),
    }
}

/// The error, if the result is one.
pub open spec fn failure_of<T>(r: Res<T>) -> Option<ErrorV> {
    match r {
        Ok(_) => None,
        Err(e) => Some(e@),
    }
}

/// The state in which every evaluation of a program starts: every scalar
/// zero, no array dimensioned, nothing stashed or ignored, the statements
/// abstained from that the program marks so.
pub open spec fn initial(p: Program) -> State {
    State {
        spot: Seq::new(
            p.sizes().spot,
            |i: int| BindV { val: 0u16, rw: true, stack: Seq::empty() },
        ),
        twospot: Seq::new(
            p.sizes().twospot,
            |i: int| BindV { val: 0u32, rw: true, stack: Seq::empty() },
        ),
        tail: Seq::new(
            p.sizes().tail,
            |i: int|
                BindV {
                    val: ArrayV { dims: Seq::empty(), elems: Seq::empty() },
                    rw: true,
                    stack: Seq::empty(),
                },
        ),
        hybrid: Seq::new(
            p.sizes().hybrid,
            |i: int|
                BindV {
                    val: ArrayV { dims: Seq::empty(), elems: Seq::empty() },
                    rw: true,
                    stack: Seq::empty(),
                },
        ),
        jumps: Seq::empty(),
        abstain: Seq::new(p.stmts.len() as nat, |i: int| p.stmts[i].props.disabled),
        last_in: 0,
        last_out: 0,
        stmt_ctr: 0,
        pctr: 0,
        in_pos: 0,
        output: Seq::empty(),
    }
}

fn fresh_spot(n: usize) -> (v: Vec<Bind<u16>>)
    ensures
        cells_view(v) == Seq::new(
            n as nat,
            |i: int| BindV { val: 0u16, rw: true, stack: Seq::empty() },
        ),
{
    let mut v: Vec<Bind<u16>> = Vec::new();
    while v.len() < n
        invariant
            v.len() <= n,
            forall|i: int|
                0 <= i < v.len() ==> (#[trigger] v[i])@ == (BindV::<u16> {
                    val: 0u16,
                    rw: true,
                    stack: Seq::empty(),
                }),
        decreases n - v.len(),
    {
        v.push(Bind::new(0u16));
    }
    assert(cells_view(v) =~= Seq::new(
        n as nat,
        |i: int| BindV { val: 0u16, rw: true, stack: Seq::empty() },
    ));
    v
}

fn fresh_twospot(n: usize) -> (v: Vec<Bind<u32>>)
    ensures
        cells_view(v) == Seq::new(
            n as nat,
            |i: int| BindV { val: 0u32, rw: true, stack: Seq::empty() },
        ),
{
    let mut v: Vec<Bind<u32>> = Vec::new();
    while v.len() < n
        invariant
            v.len() <= n,
            forall|i: int|
                0 <= i < v.len() ==> (#[trigger] v[i])@ == (BindV::<u32> {
                    val: 0u32,
                    rw: true,
                    stack: Seq::empty(),
                }),
        decreases n - v.len(),
    {
        v.push(Bind::new(0u32));
    }
    assert(cells_view(v) =~= Seq::new(
        n as nat,
        |i: int| BindV { val: 0u32, rw: true, stack: Seq::empty() },
    ));
    v
}

fn fresh_arrays<T: Copy>(n: usize) -> (v: Vec<Bind<Array<T>>>)
    ensures
        cells_view(v) == Seq::new(
            n as nat,
            |i: int|
                BindV {
                    val: ArrayV::<T> { dims: Seq::empty(), elems: Seq::empty() },
                    rw: true,
                    stack: Seq::empty(),
                },
        ),
{
    let mut v: Vec<Bind<Array<T>>> = Vec::new();
    while v.len() < n
        invariant
            v.len() <= n,
            forall|i: int|
                0 <= i < v.len() ==> (#[trigger] v[i])@ == (BindV {
                    val: ArrayV::<T> { dims: Seq::empty(), elems: Seq::empty() },
                    rw: true,
                    stack: Seq::empty(),
                }),
        decreases n - v.len(),
    {
        let a = Array::<T>::empty();
        assert(a@.dims =~= Seq::empty());
        assert(a@.elems =~= Seq::empty());
        v.push(Bind::new(a));
    }
    assert(cells_view(v) =~= Seq::new(
        n as nat,
        |i: int|
            BindV {
                val: ArrayV::<T> { dims: Seq::empty(), elems: Seq::empty() },
                rw: true,
                stack: Seq::empty(),
            },
    ));
    v
}

impl<'a> Eval<'a> {
    /// Whether two evaluations run the same program on the same input.
    pub open spec fn same_run(&self, before: &Eval<'a>) -> bool {
        self.program == before.program && self.input == before.input
    }

    /// An evaluation of `program` on `input`, before its first step.
    pub fn new(program: &'a Program, input: Vec<u8>) -> (ev: Eval<'a>)
        requires
            program.wf(),
        ensures
            ev.wf(),
            ev.program == program,
            ev.input == input,
            ev@ == initial(*program),
    {
        let mut abs: Vec<bool> = Vec::new();
        while abs.len() < program.stmts.len()
            invariant
                abs.len() <= program.stmts.len(),
                forall|i: int| 0 <= i < abs.len() ==> abs@[i] == program.stmts[i].props.disabled,
            decreases program.stmts.len() - abs.len(),
        {
            abs.push(program.stmts[abs.len()].props.disabled);
        }
        let ev = Eval {
            program,
            input,
            spot: fresh_spot(program.var_info.0.len()),
            twospot: fresh_twospot(program.var_info.1.len()),
            tail: fresh_arrays::<u16>(program.var_info.2.len()),
            hybrid: fresh_arrays::<u32>(program.var_info.3.len()),
            jumps: Vec::new(),
            abstain: abs,
            last_in: 0,
            last_out: 0,
            stmt_ctr: 0,
            pctr: 0,
            in_pos: 0,
            output: Vec::new(),
        };
        proof {
            assert(ev@.abstain =~= initial(*program).abstain);
            assert(ev@.jumps =~= initial(*program).jumps);
            assert(ev@.output =~= initial(*program).output);
        }
        ev
    }

    /// Assigns to a variable.
    pub fn assign(&mut self, var: &Var, val: Val) -> (r: Res<()>)
        requires
            old(self).wf(),
            var_ok(var@, old(self).sizes()),
        ensures
            final(self).wf(),
            final(self).same_run(old(self)),
            (final(self)@, failure(r)) == assign(old(self)@, var@, val),
            is_plain(r),
    {
        match var {
            Var::I16(n) => {
                let x = val.as_u16()?;
                cell_assign(&mut self.spot, *n, x);
                Ok(())
            },
            Var::I32(n) => {
                cell_assign(&mut self.twospot, *n, val.as_u32());
                Ok(())
            },
            Var::A16(n, subs) => {
                let s = self.eval_subs(subs)?;
                let x = val.as_u16()?;
                assert(cell_wf(self@.tail[*n as int]));
                let cell = &mut self.tail[*n];
                let r = cell.arr_assign(&s, x);
                proof {
                    let c = old(self)@.tail[*n as int];
                    if r is Ok {
                        assert(self@.tail =~= old(self)@.tail.update(
                            *n as int,
                            c.assign(c.val.put(s@, x)),
                        ));
                    } else {
                        assert(self@.tail =~= old(self)@.tail);
                    }
                    assert(cell_wf(self@.tail[*n as int]));
                }
                r
            },
            Var::A32(n, subs) => {
                let s = self.eval_subs(subs)?;
                let x = val.as_u32();
                assert(cell_wf(self@.hybrid[*n as int]));
                let cell = &mut self.hybrid[*n];
                let r = cell.arr_assign(&s, x);
                proof {
                    let c = old(self)@.hybrid[*n as int];
                    if r is Ok {
                        assert(self@.hybrid =~= old(self)@.hybrid.update(
                            *n as int,
                            c.assign(c.val.put(s@, x)),
                        ));
                    } else {
                        assert(self@.hybrid =~= old(self)@.hybrid);
                    }
                    assert(cell_wf(self@.hybrid[*n as int]));
                }
                r
            },
        }
    }

    /// Carries out IGNORE (`rw` clear) or REMEMBER (`rw` set) on a variable.
    /// Cannot fail.
    pub fn set_rw(&mut self, var: &Var, rw: bool)
        requires
            old(self).wf(),
            var_ok(var@, old(self).sizes()),
        ensures
            final(self).wf(),
            final(self).same_run(old(self)),
            final(self)@ == set_rw(old(self)@, var@, rw),
    {
        match var {
            Var::I16(n) => cell_set_rw(&mut self.spot, *n, rw),
            Var::I32(n) => cell_set_rw(&mut self.twospot, *n, rw),
            Var::A16(n, _) => {
                assert(cell_wf(self@.tail[*n as int]));
                cell_set_rw(&mut self.tail, *n, rw)
            },
            Var::A32(n, _) => {
                assert(cell_wf(self@.hybrid[*n as int]));
                cell_set_rw(&mut self.hybrid, *n, rw)
            },
        }
    }

    /// Carries out STASH on a variable.
    pub fn stash(&mut self, var: &Var)
        requires
            old(self).wf(),
            var_ok(var@, old(self).sizes()),
        ensures
            final(self).wf(),
            final(self).same_run(old(self)),
            final(self)@ == stash(old(self)@, var@),
    {
        match var {
            Var::I16(n) => cell_stash(&mut self.spot, *n),
            Var::I32(n) => cell_stash(&mut self.twospot, *n),
            Var::A16(n, _) => {
                assert(cell_wf(self@.tail[*n as int]));
                cell_stash(&mut self.tail, *n)
            },
            Var::A32(n, _) => {
                assert(cell_wf(self@.hybrid[*n as int]));
                cell_stash(&mut self.hybrid, *n)
            },
        }
    }

    /// Carries out RETRIEVE on a variable.
    pub fn retrieve(&mut self, var: &Var) -> (r: Res<()>)
        requires
            old(self).wf(),
            var_ok(var@, old(self).sizes()),
        ensures
            final(self).wf(),
            final(self).same_run(old(self)),
            match r {
                Ok(_) => stashed(old(self)@, var@) > 0 && final(self)@ == retrieve(
                    old(self)@,
                    var@,
                ),
                Err(e) => stashed(old(self)@, var@) == 0 && final(self)@ == old(self)@ && e@
                    == plain(ErrCode::IE436),
            },
    {
        match var {
            Var::I16(n) => cell_retrieve(&mut self.spot, *n),
            Var::I32(n) => cell_retrieve(&mut self.twospot, *n),
            Var::A16(n, _) => {
                assert(cell_wf(self@.tail[*n as int]));
                cell_retrieve(&mut self.tail, *n)
            },
            Var::A32(n, _) => {
                assert(cell_wf(self@.hybrid[*n as int]));
                cell_retrieve(&mut self.hybrid, *n)
            },
        }
    }

    /// Carries out ABSTAIN (`flag` set) or REINSTATE (`flag` clear) on one
    /// target. Cannot fail.
    pub fn abstain(&mut self, what: &Abstain, flag: bool)
        requires
            old(self).wf(),
            old(self).program.target_ok(*what),
        ensures
            final(self).wf(),
            final(self).same_run(old(self)),
            final(self)@ == (State {
                abstain: abstain_one(*old(self).program, old(self)@.abstain, *what, flag),
                ..old(self)@
            }),
    {
        let program = self.program;
        match what {
            Abstain::Label(l) => {
                match find_label(&program.labels, *l) {
                    Some(idx) => {
                        self.abstain.set(idx, flag);
                    },
                    None => {},
                }
            },
            Abstain::StmtType(k) => {
                let mut i: usize = 0;
                let ghost before = self.abstain@;
                while i < program.stmt_types.len()
                    invariant
                        i <= program.stmt_types.len(),
                        program.stmt_types.len() <= program.stmts.len(),
                        self.abstain.len() == program.stmts.len(),
                        before.len() == program.stmts.len(),
                        self.program == old(self).program,
                        self.program == program,
                        self.input == old(self).input,
                        self.spot == old(self).spot,
                        self.twospot == old(self).twospot,
                        self.tail == old(self).tail,
                        self.hybrid == old(self).hybrid,
                        self.jumps == old(self).jumps,
                        self.last_in == old(self).last_in,
                        self.last_out == old(self).last_out,
                        self.stmt_ctr == old(self).stmt_ctr,
                        self.pctr == old(self).pctr,
                        self.in_pos == old(self).in_pos,
                        self.output == old(self).output,
                        forall|j: int|
                            0 <= j < self.abstain.len() ==> self.abstain@[j] == if j < i
                                && program.stmt_types[j] == *k {
                                flag
                            } else {
                                before[j]
                            },
                    decreases program.stmt_types.len() - i,
                {
                    if program.stmt_types[i] == *k {
                        self.abstain.set(i, flag);
                    }
                    i += 1;
                }
                assert(self.abstain@ =~= abstain_one(*program, before, *what, flag));
            },
        }
    }

    /// Carries out DIM on an array.
    pub fn array_dim(&mut self, var: &Var, dims: &Vec<Expr>) -> (r: Res<()>)
        requires
            old(self).wf(),
            var@.is_array(),
            var_ok(var@, old(self).sizes()),
            exprs_ok(exprs_view(*dims), old(self).sizes()),
        ensures
            final(self).wf(),
            final(self).same_run(old(self)),
            (final(self)@, failure(r)) == dim(old(self)@, var@, exprs_view(*dims)),
            is_plain(r),
    {
        let shape = self.eval_subs(dims)?;
        let ghost sh = shape@;
        match var {
            Var::A16(n, _) => {
                assert(cell_wf(self@.tail[*n as int]));
                let cell = &mut self.tail[*n];
                let r = cell.dimension(shape);
                proof {
                    if r is Ok {
                        assert(self@.tail =~= old(self)@.tail.update(
                            *n as int,
                            BindV {
                                val: crate::store::zeroed::<u16>(sh),
                                ..old(self)@.tail[*n as int]
                            },
                        ));
                    } else {
                        assert(self@.tail =~= old(self)@.tail);
                    }
                    assert(cell_wf(self@.tail[*n as int]));
                }
                r
            },
            Var::A32(n, _) => {
                assert(cell_wf(self@.hybrid[*n as int]));
                let cell = &mut self.hybrid[*n];
                let r = cell.dimension(shape);
                proof {
                    if r is Ok {
                        assert(self@.hybrid =~= old(self)@.hybrid.update(
                            *n as int,
                            BindV {
                                val: crate::store::zeroed::<u32>(sh),
                                ..old(self)@.hybrid[*n as int]
                            },
                        ));
                    } else {
                        assert(self@.hybrid =~= old(self)@.hybrid);
                    }
                    assert(cell_wf(self@.hybrid[*n as int]));
                }
                r
            },
            _ => Ok(()),
        }
    }

    /// Writes a number as Roman text.
    pub fn write_number(&mut self, n: u32)
        requires
            old(self).wf(),
        ensures
            final(self).wf(),
            final(self).same_run(old(self)),
            final(self)@ == (State { output: old(self)@.output + roman_bytes(n), ..old(self)@ }),
    {
        let s = to_roman(n);
        let mut bytes = s.as_str().as_bytes_vec();
        self.output.append(&mut bytes);
    }

    /// Carries out READ OUT on one item.
    pub fn read_out(&mut self, item: &Expr) -> (r: Res<()>)
        requires
            old(self).wf(),
            expr_ok(item@, old(self).sizes()),
        ensures
            final(self).wf(),
            final(self).same_run(old(self)),
            (final(self)@, failure(r)) == readout_one(old(self)@, item@),
            is_plain(r),
    {
        match item {
            Expr::Var(var) => {
                if var.is_dim() {
                    self.array_readout(var);
                    return Ok(());
                }
            },
            _ => {},
        }
        let x = self.eval_expr(item)?;
        self.write_number(x.as_u32());
        Ok(())
    }

    /// Carries out READ OUT on a whole array.
    pub fn array_readout(&mut self, var: &Var)
        requires
            old(self).wf(),
            var_ok(var@, old(self).sizes()),
        ensures
            final(self).wf(),
            final(self).same_run(old(self)),
            final(self)@ == array_readout(old(self)@, var@),
    {
        match var {
            Var::A16(n, _) => {
                self.tail[*n].readout(&mut self.last_out, &mut self.output);
            },
            Var::A32(n, _) => {
                self.hybrid[*n].readout(&mut self.last_out, &mut self.output);
            },
            _ => {},
        }
    }

    /// Carries out WRITE IN on a whole array.
    pub fn array_writein(&mut self, var: &Var)
        requires
            old(self).wf(),
            var_ok(var@, old(self).sizes()),
        ensures
            final(self).wf(),
            final(self).same_run(old(self)),
            final(self)@ == array_writein(old(self)@, old(self).input@, var@),
    {
        match var {
            Var::A16(n, _) => {
                assert(cell_wf(self@.tail[*n as int]));
                let cell = &mut self.tail[*n];
                cell.writein(&mut self.last_in, &self.input, &mut self.in_pos);
                proof {
                    let c = old(self)@.tail[*n as int];
                    let k = c.val.elems.len();
                    let a = ArrayV {
                        dims: c.val.dims,
                        elems: crate::store::writein_elems::<u16>(
                            self.input@,
                            old(self).in_pos as int,
                            old(self).last_in,
                            k,
                        ),
                    };
                    assert(self@.tail =~= old(self)@.tail.update(*n as int, c.assign(a)));
                    lemma_writein_wf(c, a);
                }
            },
            Var::A32(n, _) => {
                assert(cell_wf(self@.hybrid[*n as int]));
                let cell = &mut self.hybrid[*n];
                cell.writein(&mut self.last_in, &self.input, &mut self.in_pos);
                proof {
                    let c = old(self)@.hybrid[*n as int];
                    let k = c.val.elems.len();
                    let a = ArrayV {
                        dims: c.val.dims,
                        elems: crate::store::writein_elems::<u32>(
                            self.input@,
                            old(self).in_pos as int,
                            old(self).last_in,
                            k,
                        ),
                    };
                    assert(self@.hybrid =~= old(self)@.hybrid.update(*n as int, c.assign(a)));
                    lemma_writein_wf(c, a);
                }
            },
            _ => {},
        }
    }

    /// Reads a number from the next line of the input.
    pub fn read_number(&mut self) -> (r: Res<u32>)
        requires
            old(self).wf(),
        ensures
            final(self).wf(),
            final(self).same_run(old(self)),
            final(self)@ == (State {
                in_pos: line_end(old(self).input@, old(self).in_pos as int) as usize,
                ..old(self)@
            }),
            match r {
                Ok(n) => read_number(old(self).input@, old(self).in_pos as int) == Ok::<
                    u32,
                    ErrorV,
                >(n),
                Err(e) => read_number(old(self).input@, old(self).in_pos as int) == Err::<
                    u32,
                    ErrorV,
                >(e@),
            },
    {
        let start = self.in_pos;
        let len = self.input.len();
        if start >= len {
            return Err(Error::new(ErrCode::IE562));
        }
        let mut end = start;
        while end < len && self.input[end] != 10
            invariant
                start <= end <= len,
                len == self.input.len(),
                line_end(self.input@, start as int) == line_end(self.input@, end as int),
            decreases len - end,
        {
            end += 1;
        }
        if end < len {
            end += 1;
        }
        self.in_pos = end;
        let line = slice_subrange(self.input.as_slice(), start, end);
        match utf8_text(line) {
            None => Err(Error::new(ErrCode::IE562)),
            Some(s) => {
                proof {
                    vstd::utf8::encode_utf8_decode_utf8(s@);
                }
                from_english(s)
            },
        }
    }

    /// Carries out WRITE IN on a variable.
    pub fn write_in(&mut self, var: &Var) -> (r: Res<()>)
        requires
            old(self).wf(),
            var_ok(var@, old(self).sizes()),
        ensures
            final(self).wf(),
            final(self).same_run(old(self)),
            (final(self)@, failure_of(r)) == writein(old(self)@, old(self).input@, var@),
    {
        if var.is_dim() {
            self.array_writein(var);
            Ok(())
        } else {
            let n = self.read_number()?;
            self.assign(var, Val::from_u32(n))
        }
    }
}

/// An array cell stays sound when its elements are replaced one for one.
pub proof fn lemma_writein_wf<T>(c: BindV<ArrayV<T>>, a: ArrayV<T>)
    requires
        cell_wf(c),
        a.dims == c.val.dims,
        a.elems.len() == c.val.elems.len(),
    ensures
        cell_wf(c.assign(a)),
{
}

} // verus!
