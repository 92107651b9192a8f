//! What a program means: the state of an evaluation and, as mathematical
//! functions on it, the value of an expression, the effect of a statement
//! and one step of the statement pointer.

use vstd::prelude::*;
use vstd::utf8::{decode_utf8, encode_utf8, valid_utf8};
use crate::ast::{BitOp, exprs_view, Abstain, ExprV, Program, StmtBody, StmtType, VType, VarV};
use crate::bits::{
    and_16_spec, and_32_spec, mingle_spec, or_16_spec, or_32_spec, select_spec, xor_16_spec,
    xor_32_spec,
};
use crate::english::english_spec;
use crate::err::{plain, ErrCode, ErrorV};
use crate::roman::roman_spec;
use crate::store::{
    has_zero, product, readout_bytes, readout_state, writein_elems, writein_pos, writein_state,
    zeroed, ArrayV, BindV,
};
use crate::val::Val;
use crate::valid::vars_view;

verus! {

/// The deepest that the NEXT stack may grow.
pub const MAX_JUMPS: usize = 80;

/// The state of an evaluation.
pub ghost struct State {
    /// The 16-bit scalars.
    pub spot: Seq<BindV<u16>>,
    /// The 32-bit scalars.
    pub twospot: Seq<BindV<u32>>,
    /// The 16-bit arrays.
    pub tail: Seq<BindV<ArrayV<u16>>>,
    /// The 32-bit arrays.
    pub hybrid: Seq<BindV<ArrayV<u32>>>,
    /// The NEXT stack: the statements to resume after, the latest last.
    pub jumps: Seq<usize>,
    /// For each statement, whether it is abstained from.
    pub abstain: Seq<bool>,
    /// The last byte of array input.
    pub last_in: u8,
    /// The last byte of array output.
    pub last_out: u8,
    /// The number of statements reached so far.
    pub stmt_ctr: usize,
    /// The statement to execute next.
    pub pctr: usize,
    /// How much of the input is consumed.
    pub in_pos: usize,
    /// Everything written so far.
    pub output: Seq<u8>,
}

/// How a step ends.
pub ghost enum Outcome {
    /// The program goes on.
    Running,
    /// The program gave up after so many statements.
    Done(usize),
    /// The program failed.
    Failed(ErrorV),
}

/// What a statement asks of the statement pointer.
#[derive(Clone, Copy, PartialEq, Eq, Debug, Structural)]
pub enum StmtRes {
    /// Go on with the statement that follows.
    Next,
    /// Go to a statement and remember where from.
    Jump(usize),
    /// Go back to a remembered statement and on from there.
    Back(usize),
    /// Stop.
    End,
}

/// The operators of two operands.
pub ghost enum Bin {
    Mingle,
    Select,
    And,
    Or,
    Xor,
    Rshift,
    Lshift,
    Plus,
    Minus,
    NotEqual,
}

/// The sum modulo 2^32.
pub open spec fn wrap_add(x: u32, y: u32) -> u32 {
    ((x + y) % 0x1_0000_0000) as u32
}

/// The difference modulo 2^32.
pub open spec fn wrap_sub(x: u32, y: u32) -> u32 {
    ((x - y) % 0x1_0000_0000) as u32
}

/// `x` shifted right by `k` places; nothing is left from 32 places on.
pub open spec fn shift_right(x: u32, k: u32) -> u32 {
    if k < 32 {
        x >> k
    } else {
        0
    }
}

/// `x` shifted left by `k` places within 32 bits; nothing is left from 32
/// places on.
pub open spec fn shift_left(x: u32, k: u32) -> u32 {
    if k < 32 {
        x << k
    } else {
        0
    }
}

/// The result of an operator of two operands. MINGLE and SELECT give a
/// 32-bit value; the host operators give the narrowest that holds the
/// result.
pub open spec fn bin_value(op: Bin, x: u32, y: u32) -> Result<Val, ErrCode> {
    match op {
        Bin::Mingle => if x <= 0xffff && y <= 0xffff {
            Ok(Val::I32(mingle_spec(x, y)))
        } else {
            Err(ErrCode::IE533)
        },
        Bin::Select => Ok(Val::I32(select_spec(x, y))),
        Bin::And => Ok(Val::of(x & y)),
        Bin::Or => Ok(Val::of(x | y)),
        Bin::Xor => Ok(Val::of(x ^ y)),
        Bin::Rshift => Ok(Val::of(shift_right(x, y))),
        Bin::Lshift => Ok(Val::of(shift_left(x, y))),
        Bin::Plus => Ok(Val::of(wrap_add(x, y))),
        Bin::Minus => Ok(Val::of(wrap_sub(x, y))),
        Bin::NotEqual => Ok(
            Val::of(
                if x != y {
                    1
                } else {
                    0
                },
            ),
        ),
    }
}

/// An operator of two operands over the outcomes of the operands: the
/// left operand fails first.
pub open spec fn apply2(op: Bin, a: Result<Val, ErrCode>, b: Result<Val, ErrCode>) -> Result<
    Val,
    ErrCode,
> {
    match a {
        Err(c) => Err(c),
        Ok(x) => match b {
            Err(c) => Err(c),
            Ok(y) => bin_value(op, x.value(), y.value()),
        },
    }
}

/// The result of a unary INTERCAL operator: it works at the width of its
/// operand and keeps that width.
pub open spec fn unary_value(op: BitOp, x: Val) -> Val {
    match x {
        Val::I16(v) => Val::I16(
            match op {
                BitOp::And => and_16_spec(v),
                BitOp::Or => or_16_spec(v),
                BitOp::Xor => xor_16_spec(v),
            },
        ),
        Val::I32(v) => Val::I32(
            match op {
                BitOp::And => and_32_spec(v),
                BitOp::Or => or_32_spec(v),
                BitOp::Xor => xor_32_spec(v),
            },
        ),
    }
}

/// A unary INTERCAL operator over the outcome of its operand.
pub open spec fn apply1(op: BitOp, a: Result<Val, ErrCode>) -> Result<Val, ErrCode> {
    match a {
        Err(c) => Err(c),
        Ok(x) => Ok(unary_value(op, x)),
    }
}

/// The host complement over the outcome of its operand.
pub open spec fn apply_not(a: Result<Val, ErrCode>) -> Result<Val, ErrCode> {
    match a {
        Err(c) => Err(c),
        Ok(x) => Ok(Val::of(!x.value())),
    }
}

/// The value of a literal.
pub open spec fn literal_value(t: VType, v: u32) -> Val {
    match t {
        VType::I16 => Val::I16(v as u16),
        VType::I32 => Val::I32(v),
    }
}

/// The value of an expression in a state, or the error that its
/// evaluation ends in.
pub open spec fn eval_expr(st: State, e: ExprV) -> Result<Val, ErrCode>
    decreases e, 0nat,
{
    match e {
        ExprV::Num(t, v) => Ok(literal_value(t, v)),
        ExprV::Var(v) => lookup(st, v),
        ExprV::Mingle(a, b) => apply2(Bin::Mingle, eval_expr(st, *a), eval_expr(st, *b)),
        ExprV::Select(a, b) => apply2(Bin::Select, eval_expr(st, *a), eval_expr(st, *b)),
        ExprV::And(_, a) => apply1(BitOp::And, eval_expr(st, *a)),
        ExprV::Or(_, a) => apply1(BitOp::Or, eval_expr(st, *a)),
        ExprV::Xor(_, a) => apply1(BitOp::Xor, eval_expr(st, *a)),
        ExprV::RsAnd(a, b) => apply2(Bin::And, eval_expr(st, *a), eval_expr(st, *b)),
        ExprV::RsOr(a, b) => apply2(Bin::Or, eval_expr(st, *a), eval_expr(st, *b)),
        ExprV::RsXor(a, b) => apply2(Bin::Xor, eval_expr(st, *a), eval_expr(st, *b)),
        ExprV::RsNot(a) => apply_not(eval_expr(st, *a)),
        ExprV::RsRshift(a, b) => apply2(Bin::Rshift, eval_expr(st, *a), eval_expr(st, *b)),
        ExprV::RsLshift(a, b) => apply2(Bin::Lshift, eval_expr(st, *a), eval_expr(st, *b)),
        ExprV::RsPlus(a, b) => apply2(Bin::Plus, eval_expr(st, *a), eval_expr(st, *b)),
        ExprV::RsMinus(a, b) => apply2(Bin::Minus, eval_expr(st, *a), eval_expr(st, *b)),
        ExprV::RsNotEqual(a, b) => apply2(Bin::NotEqual, eval_expr(st, *a), eval_expr(st, *b)),
    }
}

/// The values of the first `n` expressions of a list, or the first error.
pub open spec fn eval_subs(st: State, subs: Seq<ExprV>, n: nat) -> Result<Seq<usize>, ErrCode>
    decreases subs, n,
{
    if n == 0 || n > subs.len() {
        Ok(Seq::empty())
    } else {
        match eval_subs(st, subs, (n - 1) as nat) {
            Err(c) => Err(c),
            Ok(s) => match eval_expr(st, subs[n - 1]) {
                Err(c) => Err(c),
                Ok(x) => Ok(s.push(x.value() as usize)),
            },
        }
    }
}

/// The value of an array element, or the error of subscripts out of range.
pub open spec fn element<T>(a: ArrayV<T>, subs: Seq<usize>) -> Result<T, ErrCode> {
    match a.get(subs) {
        Some(x) => Ok(x),
        None => Err(ErrCode::IE241),
    }
}

/// The value of a variable in a state.
pub open spec fn lookup(st: State, v: VarV) -> Result<Val, ErrCode>
    decreases v, 0nat,
{
    match v {
        VarV::I16(n) => Ok(Val::I16(st.spot[n as int].val)),
        VarV::I32(n) => Ok(Val::I32(st.twospot[n as int].val)),
        VarV::A16(n, subs) => match eval_subs(st, subs, subs.len()) {
            Err(c) => Err(c),
            Ok(s) => match element(st.tail[n as int].val, s) {
                Err(c) => Err(c),
                Ok(x) => Ok(Val::I16(x)),
            },
        },
        VarV::A32(n, subs) => match eval_subs(st, subs, subs.len()) {
            Err(c) => Err(c),
            Ok(s) => match element(st.hybrid[n as int].val, s) {
                Err(c) => Err(c),
                Ok(x) => Ok(Val::I32(x)),
            },
        },
    }
}

/// The state after an assignment to a variable, and the error if there is
/// one. A value too wide for a 16-bit variable is an error even where the
/// variable is ignored.
pub open spec fn assign(st: State, v: VarV, x: Val) -> (State, Option<ErrCode>) {
    match v {
        VarV::I16(n) => if x.value() > 0xffff {
            (st, Some(ErrCode::IE275))
        } else {
            (
                State {
                    spot: st.spot.update(n as int, st.spot[n as int].assign(x.value() as u16)),
                    ..st
                },
                None,
            )
        },
        VarV::I32(n) => (
            State {
                twospot: st.twospot.update(n as int, st.twospot[n as int].assign(x.value())),
                ..st
            },
            None,
        ),
        VarV::A16(n, subs) => match eval_subs(st, subs, subs.len()) {
            Err(c) => (st, Some(c)),
            Ok(s) => if x.value() > 0xffff {
                (st, Some(ErrCode::IE275))
            } else if st.tail[n as int].val.get(s) is None {
                (st, Some(ErrCode::IE241))
            } else {
                let cell = st.tail[n as int];
                (
                    State {
                        tail: st.tail.update(
                            n as int,
                            cell.assign(cell.val.put(s, x.value() as u16)),
                        ),
                        ..st
                    },
                    None,
                )
            },
        },
        VarV::A32(n, subs) => match eval_subs(st, subs, subs.len()) {
            Err(c) => (st, Some(c)),
            Ok(s) => if st.hybrid[n as int].val.get(s) is None {
                (st, Some(ErrCode::IE241))
            } else {
                let cell = st.hybrid[n as int];
                (
                    State {
                        hybrid: st.hybrid.update(n as int, cell.assign(cell.val.put(s, x.value()))),
                        ..st
                    },
                    None,
                )
            },
        },
    }
}

/// The state with the write gate of a variable set.
pub open spec fn set_rw(st: State, v: VarV, rw: bool) -> State {
    match v {
        VarV::I16(n) => State {
            spot: st.spot.update(n as int, st.spot[n as int].set_rw(rw)),
            ..st
        },
        VarV::I32(n) => State {
            twospot: st.twospot.update(n as int, st.twospot[n as int].set_rw(rw)),
            ..st
        },
        VarV::A16(n, _) => State {
            tail: st.tail.update(n as int, st.tail[n as int].set_rw(rw)),
            ..st
        },
        VarV::A32(n, _) => State {
            hybrid: st.hybrid.update(n as int, st.hybrid[n as int].set_rw(rw)),
            ..st
        },
    }
}

/// The state after IGNORE or REMEMBER of the first `n` variables of a list.
pub open spec fn set_rw_all(st: State, vs: Seq<VarV>, rw: bool, n: nat) -> State
    decreases n,
{
    if n == 0 {
        st
    } else {
        set_rw(set_rw_all(st, vs, rw, (n - 1) as nat), vs[n - 1], rw)
    }
}

/// The state after STASH of a variable.
pub open spec fn stash(st: State, v: VarV) -> State {
    match v {
        VarV::I16(n) => State { spot: st.spot.update(n as int, st.spot[n as int].stash()), ..st },
        VarV::I32(n) => State {
            twospot: st.twospot.update(n as int, st.twospot[n as int].stash()),
            ..st
        },
        VarV::A16(n, _) => State {
            tail: st.tail.update(n as int, st.tail[n as int].stash()),
            ..st
        },
        VarV::A32(n, _) => State {
            hybrid: st.hybrid.update(n as int, st.hybrid[n as int].stash()),
            ..st
        },
    }
}

/// The state after STASH of the first `n` variables of a list.
pub open spec fn stash_all(st: State, vs: Seq<VarV>, n: nat) -> State
    decreases n,
{
    if n == 0 {
        st
    } else {
        stash(stash_all(st, vs, (n - 1) as nat), vs[n - 1])
    }
}

/// How many states a variable has stashed.
pub open spec fn stashed(st: State, v: VarV) -> nat {
    match v {
        VarV::I16(n) => st.spot[n as int].stack.len(),
        VarV::I32(n) => st.twospot[n as int].stack.len(),
        VarV::A16(n, _) => st.tail[n as int].stack.len(),
        VarV::A32(n, _) => st.hybrid[n as int].stack.len(),
    }
}

/// The state after RETRIEVE of a variable that has something stashed.
pub open spec fn retrieve(st: State, v: VarV) -> State {
    match v {
        VarV::I16(n) => State {
            spot: st.spot.update(n as int, st.spot[n as int].retrieve()),
            ..st
        },
        VarV::I32(n) => State {
            twospot: st.twospot.update(n as int, st.twospot[n as int].retrieve()),
            ..st
        },
        VarV::A16(n, _) => State {
            tail: st.tail.update(n as int, st.tail[n as int].retrieve()),
            ..st
        },
        VarV::A32(n, _) => State {
            hybrid: st.hybrid.update(n as int, st.hybrid[n as int].retrieve()),
            ..st
        },
    }
}

/// The state after RETRIEVE of the first `n` variables of a list. The
/// first variable with nothing stashed ends it with an error, and the
/// variables before it stay retrieved.
pub open spec fn retrieve_all(st: State, vs: Seq<VarV>, n: nat) -> (State, Option<ErrCode>)
    decreases n,
{
    if n == 0 {
        (st, None)
    } else {
        let (s, r) = retrieve_all(st, vs, (n - 1) as nat);
        if r is Some {
            (s, r)
        } else if stashed(s, vs[n - 1]) == 0 {
            (s, Some(ErrCode::IE436))
        } else {
            (retrieve(s, vs[n - 1]), None)
        }
    }
}

/// The flags after ABSTAIN (`flag` set) or REINSTATE (`flag` clear) of one
/// target.
pub open spec fn abstain_one(p: Program, flags: Seq<bool>, t: Abstain, flag: bool) -> Seq<bool> {
    match t {
        Abstain::Label(l) => flags.update(p.labels@[l] as int, flag),
        Abstain::StmtType(k) => Seq::new(
            flags.len(),
            |i: int|
                if i < p.stmt_types.len() && p.stmt_types[i] == k {
                    flag
                } else {
                    flags[i]
                },
        ),
    }
}

/// The flags after ABSTAIN or REINSTATE of the first `n` targets of a list.
pub open spec fn abstain_all(p: Program, flags: Seq<bool>, ts: Seq<Abstain>, flag: bool, n: nat)
    -> Seq<bool>
    decreases n,
{
    if n == 0 {
        flags
    } else {
        abstain_one(p, abstain_all(p, flags, ts, flag, (n - 1) as nat), ts[n - 1], flag)
    }
}

/// The bytes that the READ OUT of a number emits: its Roman text.
pub open spec fn roman_bytes(n: u32) -> Seq<u8> {
    encode_utf8(roman_spec(n))
}

/// The state after READ OUT of one item: a whole array goes out byte by
/// byte, anything else as a number.
pub open spec fn readout_one(st: State, e: ExprV) -> (State, Option<ErrCode>) {
    match e {
        ExprV::Var(v) if v.is_dim() => (array_readout(st, v), None),
        _ => match eval_expr(st, e) {
            Err(c) => (st, Some(c)),
            Ok(x) => (State { output: st.output + roman_bytes(x.value()), ..st }, None),
        },
    }
}

/// The state after READ OUT of a whole array.
pub open spec fn array_readout(st: State, v: VarV) -> State {
    match v {
        VarV::A16(n, _) => {
            let elems = st.tail[n as int].val.elems;
            State {
                output: st.output + readout_bytes(elems, st.last_out),
                last_out: readout_state(elems, st.last_out),
                ..st
            }
        },
        VarV::A32(n, _) => {
            let elems = st.hybrid[n as int].val.elems;
            State {
                output: st.output + readout_bytes(elems, st.last_out),
                last_out: readout_state(elems, st.last_out),
                ..st
            }
        },
        _ => st,
    }
}

/// The state after READ OUT of the first `n` items of a list. The first
/// error ends it, and what was written before stays written.
pub open spec fn readout_all(st: State, es: Seq<ExprV>, n: nat) -> (State, Option<ErrCode>)
    decreases n,
{
    if n == 0 {
        (st, None)
    } else {
        let (s, r) = readout_all(st, es, (n - 1) as nat);
        if r is Some {
            (s, r)
        } else {
            readout_one(s, es[n - 1])
        }
    }
}

/// Where the line that starts at `pos` ends: behind its newline, or at the
/// end of the input.
pub open spec fn line_end(input: Seq<u8>, pos: int) -> int
    decreases input.len() - pos,
{
    if pos < 0 || pos >= input.len() {
        input.len() as int
    } else if input[pos] == 10 {
        pos + 1
    } else {
        line_end(input, pos + 1)
    }
}

/// The number that the line at `pos` spells. Input that has ended, or a
/// line that is no text, is an error.
pub open spec fn read_number(input: Seq<u8>, pos: int) -> Result<u32, ErrorV> {
    let line = input.subrange(pos, line_end(input, pos));
    if pos >= input.len() || !valid_utf8(line) {
        Err(plain(ErrCode::IE562))
    } else {
        english_spec(decode_utf8(line))
    }
}

/// The error, if any, without line or text.
pub open spec fn plain_of(c: Option<ErrCode>) -> Option<ErrorV> {
    match c {
        Some(c) => Some(plain(c)),
        None => None,
    }
}

/// The state after WRITE IN: a whole array takes one byte for each
/// element, anything else takes a number from one line.
pub open spec fn writein(st: State, input: Seq<u8>, v: VarV) -> (State, Option<ErrorV>) {
    if v.is_dim() {
        (array_writein(st, input, v), None)
    } else {
        let s1 = State { in_pos: line_end(input, st.in_pos as int) as usize, ..st };
        match read_number(input, st.in_pos as int) {
            Err(e) => (s1, Some(e)),
            Ok(n) => {
                let (s2, c) = assign(s1, v, Val::of(n));
                (s2, plain_of(c))
            },
        }
    }
}

/// The state after WRITE IN of a whole array.
pub open spec fn array_writein(st: State, input: Seq<u8>, v: VarV) -> State {
    match v {
        VarV::A16(n, _) => {
            let cell = st.tail[n as int];
            let k = cell.val.elems.len();
            let a = ArrayV {
                dims: cell.val.dims,
                elems: writein_elems::<u16>(input, st.in_pos as int, st.last_in, k),
            };
            State {
                tail: st.tail.update(n as int, cell.assign(a)),
                last_in: writein_state(input, st.in_pos as int, st.last_in, k),
                in_pos: writein_pos(input, st.in_pos as int, k) as usize,
                ..st
            }
        },
        VarV::A32(n, _) => {
            let cell = st.hybrid[n as int];
            let k = cell.val.elems.len();
            let a = ArrayV {
                dims: cell.val.dims,
                elems: writein_elems::<u32>(input, st.in_pos as int, st.last_in, k),
            };
            State {
                hybrid: st.hybrid.update(n as int, cell.assign(a)),
                last_in: writein_state(input, st.in_pos as int, st.last_in, k),
                in_pos: writein_pos(input, st.in_pos as int, k) as usize,
                ..st
            }
        },
        _ => st,
    }
}

/// The state after DIM of an array: the array has the shape that the
/// expressions give and is cleared.
pub open spec fn dim(st: State, v: VarV, ds: Seq<ExprV>) -> (State, Option<ErrCode>) {
    match eval_subs(st, ds, ds.len()) {
        Err(c) => (st, Some(c)),
        Ok(shape) => if has_zero(shape) {
            (st, Some(ErrCode::IE240))
        } else if product(shape) > usize::MAX {
            (st, Some(ErrCode::IE666))
        } else {
            match v {
                VarV::A16(n, _) => (
                    State {
                        tail: st.tail.update(
                            n as int,
                            BindV { val: zeroed::<u16>(shape), ..st.tail[n as int] },
                        ),
                        ..st
                    },
                    None,
                ),
                VarV::A32(n, _) => (
                    State {
                        hybrid: st.hybrid.update(
                            n as int,
                            BindV { val: zeroed::<u32>(shape), ..st.hybrid[n as int] },
                        ),
                        ..st
                    },
                    None,
                ),
                _ => (st, None),
            }
        },
    }
}

/// The state after a calculation: the value of the expression assigned to
/// the variable.
pub open spec fn calculate(st: State, v: VarV, e: ExprV) -> (State, Option<ErrCode>) {
    match eval_expr(st, e) {
        Err(c) => (st, Some(c)),
        Ok(x) => assign(st, v, x),
    }
}

/// What NEXT does: a label that names no statement is an error, and so is
/// a NEXT stack that is full.
pub open spec fn do_next(p: Program, st: State, label: u16) -> Result<StmtRes, ErrCode> {
    if !p.labels@.contains_key(label) {
        Err(ErrCode::IE129)
    } else if st.jumps.len() >= MAX_JUMPS {
        Err(ErrCode::IE123)
    } else {
        Ok(StmtRes::Jump(p.labels@[label]))
    }
}

/// What RESUME does with a depth: it drops that many entries of the NEXT
/// stack and goes back to the last of them. A depth of zero is an error,
/// and so is one deeper than the stack, which then stays as it is.
pub open spec fn resume(st: State, depth: u32) -> (State, Result<StmtRes, ErrCode>) {
    if depth == 0 {
        (st, Err(ErrCode::IE621))
    } else if st.jumps.len() < depth {
        (st, Err(ErrCode::IE632))
    } else {
        let keep = st.jumps.len() - depth;
        (State { jumps: st.jumps.take(keep), ..st }, Ok(StmtRes::Back(st.jumps[keep])))
    }
}

/// What FORGET does with a depth: it drops that many entries of the NEXT
/// stack, or all of them where there are fewer.
pub open spec fn forget(st: State, depth: u32) -> State {
    if st.jumps.len() < depth {
        State { jumps: Seq::empty(), ..st }
    } else {
        State { jumps: st.jumps.take(st.jumps.len() - depth), ..st }
    }
}

/// A result without an error is `Next`.
pub open spec fn next_unless(c: Option<ErrorV>) -> Result<StmtRes, ErrorV> {
    match c {
        Some(e) => Err(e),
        None => Ok(StmtRes::Next),
    }
}

/// The effect of one statement: the state after it, and where to go on or
/// the error. After an error the state holds what was done before it.
#[verifier::opaque]
pub open spec fn exec_stmt(p: Program, input: Seq<u8>, st: State, body: StmtBody) -> (
    State,
    Result<StmtRes, ErrorV>,
) {
    match body {
        StmtBody::Calc(v, e) => {
            let (s, c) = calculate(st, v@, e@);
            (s, next_unless(plain_of(c)))
        },
        StmtBody::Dim(v, ds) => {
            let (s, c) = dim(st, v@, exprs_view(ds));
            (s, next_unless(plain_of(c)))
        },
        StmtBody::DoNext(l) => (
            st,
            match do_next(p, st, l) {
                Ok(r) => Ok(r),
                Err(c) => Err(plain(c)),
            },
        ),
        StmtBody::ComeFrom(_) => (st, Ok(StmtRes::Next)),
        StmtBody::Resume(e) => match eval_expr(st, e@) {
            Err(c) => (st, Err(plain(c))),
            Ok(x) => {
                let (s, r) = resume(st, x.value());
                (
                    s,
                    match r {
                        Ok(r) => Ok(r),
                        Err(c) => Err(plain(c)),
                    },
                )
            },
        },
        StmtBody::Forget(e) => match eval_expr(st, e@) {
            Err(c) => (st, Err(plain(c))),
            Ok(x) => (forget(st, x.value()), Ok(StmtRes::Next)),
        },
        StmtBody::Ignore(vs) => (
            set_rw_all(st, vars_view(vs), false, vs.len() as nat),
            Ok(StmtRes::Next),
        ),
        StmtBody::Remember(vs) => (
            set_rw_all(st, vars_view(vs), true, vs.len() as nat),
            Ok(StmtRes::Next),
        ),
        StmtBody::Stash(vs) => (stash_all(st, vars_view(vs), vs.len() as nat), Ok(StmtRes::Next)),
        StmtBody::Retrieve(vs) => {
            let (s, c) = retrieve_all(st, vars_view(vs), vs.len() as nat);
            (s, next_unless(plain_of(c)))
        },
        StmtBody::Abstain(ts) => (
            State { abstain: abstain_all(p, st.abstain, ts@, true, ts.len() as nat), ..st },
            Ok(StmtRes::Next),
        ),
        StmtBody::Reinstate(ts) => (
            State { abstain: abstain_all(p, st.abstain, ts@, false, ts.len() as nat), ..st },
            Ok(StmtRes::Next),
        ),
        StmtBody::ReadOut(es) => {
            let (s, c) = readout_all(st, exprs_view(es), es.len() as nat);
            (s, next_unless(plain_of(c)))
        },
        StmtBody::WriteIn(v) => {
            let (s, c) = writein(st, input, v@);
            (s, next_unless(c))
        },
        StmtBody::GiveUp => (st, Ok(StmtRes::End)),
        StmtBody::Print(bytes) => (State { output: st.output + bytes@, ..st }, Ok(StmtRes::Next)),
        StmtBody::Error(e) => (st, Err(e@)),
    }
}

/// Where the statement pointer goes once a statement is done: to the COME
/// FROM that aims at the statement, unless that is abstained from, or else
/// to the statement that follows.
pub open spec fn advance(p: Program, st: State) -> State {
    if st.pctr < p.stmts.len() {
        match p.stmts[st.pctr as int].comefrom {
            Some(next) if !st.abstain[next as int] => State { pctr: next, ..st },
            _ => State { pctr: (st.pctr + 1) as usize, ..st },
        }
    } else {
        State { pctr: (st.pctr + 1) as usize, ..st }
    }
}

/// Whether a statement of the given chance runs, given the outcome of the
/// draw: a chance of 100 runs whatever was drawn.
pub open spec fn admitted(chance: u8, gate: bool) -> bool {
    chance >= 100 || gate
}

/// One step of the evaluator: the statement at the pointer is counted and,
/// unless it is abstained from or the draw `gate` turns it down, executed;
/// then the pointer moves.
#[verifier::opaque]
pub open spec fn step(p: Program, input: Seq<u8>, st: State, gate: bool) -> (State, Outcome) {
    if st.pctr >= p.stmts.len() {
        (
            st,
            Outcome::Failed(
                ErrorV {
                    code: ErrCode::IE663,
                    line: Some(p.stmts@.last().props.srcline),
                    text: None,
                },
            ),
        )
    } else if st.stmt_ctr == usize::MAX {
        (
            st,
            Outcome::Failed(
                ErrorV {
                    code: ErrCode::IE666,
                    line: Some(p.stmts[st.pctr as int].props.srcline),
                    text: None,
                },
            ),
        )
    } else {
        let stmt = p.stmts[st.pctr as int];
        let s1 = State { stmt_ctr: (st.stmt_ctr + 1) as usize, ..st };
        if !st.abstain[st.pctr as int] && admitted(stmt.props.chance, gate) {
            let (s2, r) = exec_stmt(p, input, s1, stmt.body);
            match r {
                Err(e) => (s2, Outcome::Failed(e.at_line(stmt.props.srcline))),
                Ok(StmtRes::Next) => (
                    advance(p, State { pctr: st.pctr, ..s2 }),
                    Outcome::Running,
                ),
                Ok(StmtRes::Jump(t)) => (
                    State { jumps: s2.jumps.push(st.pctr), pctr: t, ..s2 },
                    Outcome::Running,
                ),
                Ok(StmtRes::Back(t)) => (advance(p, State { pctr: t, ..s2 }), Outcome::Running),
                Ok(StmtRes::End) => (s2, Outcome::Done(s2.stmt_ctr)),
            }
        } else {
            (advance(p, s1), Outcome::Running)
        }
    }
}

/// The state and the outcome after the steps that the draws `gates` give
/// rise to, as far as the program goes on.
pub open spec fn run(p: Program, input: Seq<u8>, st: State, gates: Seq<bool>) -> (State, Outcome)
    decreases gates.len(),
{
    if gates.len() == 0 {
        (st, Outcome::Running)
    } else {
        let (s, o) = run(p, input, st, gates.drop_last());
        if o is Running {
            step(p, input, s, gates.last())
        } else {
            (s, o)
        }
    }
}

} // verus!
