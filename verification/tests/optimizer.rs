use std::collections::BTreeMap;

use intercal::ast::{
    Abstain, Expr, Program, Stmt, StmtBody, StmtProps, StmtType, VType, Var, VarInfo,
};
use intercal::eval::Eval;
use intercal::opt::Optimizer;
use intercal::val::Val;

fn kind(body: &StmtBody) -> StmtType {
    match body {
        StmtBody::Calc(_, _) | StmtBody::Dim(_, _) => StmtType::Calc,
        StmtBody::DoNext(_) => StmtType::Next,
        StmtBody::ComeFrom(_) => StmtType::ComeFrom,
        StmtBody::Resume(_) => StmtType::Resume,
        StmtBody::Forget(_) => StmtType::Forget,
        StmtBody::Ignore(_) => StmtType::Ignore,
        StmtBody::Remember(_) => StmtType::Remember,
        StmtBody::Stash(_) => StmtType::Stash,
        StmtBody::Retrieve(_) => StmtType::Retrieve,
        StmtBody::Abstain(_) => StmtType::Abstain,
        StmtBody::Reinstate(_) => StmtType::Reinstate,
        StmtBody::ReadOut(_) => StmtType::ReadOut,
        StmtBody::WriteIn(_) => StmtType::WriteIn,
        _ => StmtType::Other,
    }
}

fn at(line: usize, label: u16, body: StmtBody) -> Stmt {
    Stmt {
        body,
        props: StmtProps { srcline: line, chance: 100, disabled: false, label },
        comefrom: None,
        can_abstain: true,
    }
}

fn program(stmts: Vec<Stmt>) -> Program {
    let mut labels = BTreeMap::new();
    let mut stmt_types = Vec::new();
    for (i, s) in stmts.iter().enumerate() {
        if s.props.label != 0 {
            labels.insert(s.props.label, i);
        }
        stmt_types.push(kind(&s.body));
    }
    let info = VarInfo { can_stash: true, can_ignore: true };
    let p = Program {
        stmts,
        labels,
        stmt_types,
        var_info: (vec![info; 3], vec![info; 3], vec![info; 2], vec![info; 2]),
        uses_complex_comefrom: false,
        added_syslib: false,
        added_floatlib: false,
        bugline: 0,
    };
    assert!(p.check());
    p
}

fn lit(v: u32) -> Expr {
    Expr::Num(VType::I16, v)
}

fn n(v: u32) -> Expr {
    Expr::Num(VType::I32, v)
}

fn spot(i: usize) -> Expr {
    Expr::Var(Var::I16(i))
}

fn two(i: usize) -> Expr {
    Expr::Var(Var::I32(i))
}

fn b(e: Expr) -> Box<Expr> {
    Box::new(e)
}

fn sel(x: Expr, y: Expr) -> Expr {
    Expr::Select(b(x), b(y))
}

fn mgl(x: Expr, y: Expr) -> Expr {
    Expr::Mingle(b(x), b(y))
}

fn rs_and(x: Expr, y: Expr) -> Expr {
    Expr::RsAnd(b(x), b(y))
}

fn folded(mut e: Expr) -> Expr {
    Optimizer::fold(&mut e);
    e
}

fn rewritten(mut e: Expr) -> Expr {
    Optimizer::opt_expr(&mut e);
    e
}

#[test]
fn fold_reduces_operators_on_literals() {
    assert_eq!(folded(mgl(lit(65535), lit(0))), n(0xAAAA_AAAA));
    assert_eq!(folded(sel(lit(179), lit(201))), n(9));
    assert_eq!(folded(Expr::And(VType::I16, b(lit(3)))), lit(1));
    assert_eq!(folded(Expr::Or(VType::I16, b(lit(3)))), lit(32771));
    assert_eq!(folded(Expr::Xor(VType::I16, b(lit(3)))), lit(32770));
    assert_eq!(folded(Expr::And(VType::I16, b(n(3)))), n(1));
    assert_eq!(folded(Expr::Or(VType::I32, b(n(3)))), n(2147483651));
    assert_eq!(folded(Expr::Xor(VType::I32, b(n(3)))), n(2147483650));
}

#[test]
fn fold_works_from_the_leaves_up() {
    let e = sel(mgl(lit(256), lit(0)), mgl(lit(65535), lit(65535)));
    assert_eq!(folded(e), n(131072));
    let e = Expr::Xor(VType::I16, b(mgl(lit(1), lit(1))));
    assert_eq!(folded(e), n(0x8000_0002));
    let e = mgl(sel(lit(179), lit(201)), spot(0));
    assert_eq!(folded(e), mgl(n(9), spot(0)));
}

#[test]
fn fold_leaves_what_it_cannot_reduce() {
    assert_eq!(folded(mgl(n(65536), lit(0))), mgl(n(65536), lit(0)));
    assert_eq!(folded(mgl(spot(0), lit(0))), mgl(spot(0), lit(0)));
    assert_eq!(folded(spot(1)), spot(1));
    let host = Expr::RsPlus(b(mgl(lit(1), lit(0))), b(lit(1)));
    assert_eq!(folded(host), Expr::RsPlus(b(mgl(lit(1), lit(0))), b(lit(1))));
}

#[test]
fn select_of_a_unary_over_a_mingle() {
    let m = || mgl(spot(0), spot(1));
    let e = sel(Expr::And(VType::I32, b(m())), n(0x5555_5555));
    assert_eq!(rewritten(e), Expr::RsAnd(b(spot(0)), b(spot(1))));
    let e = sel(Expr::Or(VType::I32, b(m())), n(0x5555_5555));
    assert_eq!(rewritten(e), Expr::RsOr(b(spot(0)), b(spot(1))));
    let e = sel(Expr::Xor(VType::I32, b(m())), n(0x5555_5555));
    assert_eq!(rewritten(e), Expr::RsXor(b(spot(0)), b(spot(1))));
    let e = sel(m(), n(0x5555_5555));
    assert_eq!(rewritten(e), sel(m(), n(0x5555_5555)));
}

#[test]
fn select_by_a_run_of_ones() {
    assert_eq!(rewritten(sel(two(0), n(0xFF))), rs_and(two(0), n(0xFF)));
    assert_eq!(rewritten(sel(two(0), n(1))), rs_and(two(0), n(1)));
    assert_eq!(
        rewritten(sel(two(0), n(0xFFFF_0000))),
        Expr::RsRshift(b(two(0)), b(n(16)))
    );
    assert_eq!(
        rewritten(sel(two(0), n(0x8000_0000))),
        Expr::RsRshift(b(two(0)), b(n(31)))
    );
    assert_eq!(
        rewritten(sel(two(0), n(0x0000_FF00))),
        rs_and(Expr::RsRshift(b(two(0)), b(n(8))), n(0xFF))
    );
    assert_eq!(rewritten(sel(two(0), n(0))), sel(two(0), n(0)));
    assert_eq!(rewritten(sel(two(0), n(5))), sel(two(0), n(5)));
}

#[test]
fn select_by_all_ones_is_the_operand() {
    // the mask of all ones is a run that starts at the lowest place; the
    // host AND that replaces the SELECT is then dropped in its turn
    assert_eq!(rewritten(sel(two(0), n(0xFFFF_FFFF))), two(0));
}

#[test]
fn select_of_a_mingle_with_zero() {
    let e = sel(mgl(spot(0), lit(0)), n(0x2AAA_AAAB));
    assert_eq!(
        rewritten(e),
        rs_and(Expr::RsLshift(b(spot(0)), b(n(1))), n(0xFFFF))
    );
    let e = sel(mgl(spot(0), lit(1)), n(0x2AAA_AAAB));
    assert_eq!(rewritten(e), sel(mgl(spot(0), lit(1)), n(0x2AAA_AAAB)));
}

#[test]
fn mingle_of_two_halves() {
    let hi = |x: Expr| sel(x, n(0xAAAA_AAAA));
    let lo = |x: Expr| sel(x, n(0x5555_5555));
    let e = mgl(
        Expr::RsAnd(b(hi(two(0))), b(hi(two(1)))),
        Expr::RsAnd(b(lo(two(0))), b(lo(two(1)))),
    );
    assert_eq!(rewritten(e), Expr::RsAnd(b(two(0)), b(two(1))));
    let e = mgl(
        Expr::RsOr(b(hi(two(0))), b(hi(two(1)))),
        Expr::RsOr(b(lo(two(0))), b(lo(two(1)))),
    );
    assert_eq!(rewritten(e), Expr::RsOr(b(two(0)), b(two(1))));
    let e = mgl(
        Expr::RsXor(b(hi(two(0))), b(hi(two(1)))),
        Expr::RsXor(b(lo(two(0))), b(lo(two(1)))),
    );
    assert_eq!(rewritten(e), Expr::RsXor(b(two(0)), b(two(1))));
}

#[test]
fn mingle_of_halves_that_do_not_match() {
    let hi = |x: Expr| sel(x, n(0xAAAA_AAAA));
    let lo = |x: Expr| sel(x, n(0x5555_5555));
    // other operands in the two halves
    let e = mgl(
        Expr::RsAnd(b(hi(two(0))), b(hi(two(1)))),
        Expr::RsAnd(b(lo(two(0))), b(lo(two(2)))),
    );
    assert!(matches!(rewritten(e), Expr::Mingle(_, _)));
    // other operators in the two halves
    let e = mgl(
        Expr::RsAnd(b(hi(two(0))), b(hi(two(1)))),
        Expr::RsOr(b(lo(two(0))), b(lo(two(1)))),
    );
    assert!(matches!(rewritten(e), Expr::Mingle(_, _)));
}

#[test]
fn mingle_of_two_halves_against_literals() {
    let hi = |x: Expr| sel(x, n(0xAAAA_AAAA));
    let lo = |x: Expr| sel(x, n(0x5555_5555));
    let e = mgl(Expr::RsXor(b(hi(two(0))), b(n(0x12))), Expr::RsXor(b(lo(two(0))), b(n(0x34))));
    assert_eq!(rewritten(e), Expr::RsXor(b(two(0)), b(n(0x0012_0034))));
    let e = mgl(Expr::RsOr(b(hi(two(0))), b(n(0xFFFF))), Expr::RsOr(b(lo(two(0))), b(n(0xFFFF))));
    assert_eq!(rewritten(e), Expr::RsOr(b(two(0)), b(n(0xFFFF_FFFF))));
    // the mask of all ones that this makes of a host AND is dropped
    let e = mgl(rs_and(hi(two(0)), n(0xFFFF)), rs_and(lo(two(0)), n(0xFFFF)));
    assert_eq!(rewritten(e), two(0));
}

#[test]
fn mingle_of_two_tests() {
    let t1 = || Expr::RsNotEqual(b(spot(0)), b(n(0)));
    let t2 = || Expr::RsNotEqual(b(spot(1)), b(n(0)));
    assert_eq!(
        rewritten(mgl(t1(), t2())),
        Expr::RsOr(b(Expr::RsLshift(b(t1()), b(n(1)))), b(t2()))
    );
}

#[test]
fn host_and_of_a_select_by_itself() {
    let e = rs_and(sel(spot(0), spot(0)), lit(1));
    assert_eq!(rewritten(e), Expr::RsNotEqual(b(spot(0)), b(n(0))));
    let e = rs_and(sel(spot(0), spot(1)), lit(1));
    assert_eq!(rewritten(e), rs_and(sel(spot(0), spot(1)), lit(1)));
}

#[test]
fn host_and_of_a_xor_over_a_mingle() {
    let e = rs_and(Expr::Xor(VType::I32, b(mgl(spot(0), lit(1)))), lit(3));
    assert_eq!(rewritten(e), Expr::RsPlus(b(n(1)), b(rs_and(spot(0), n(1)))));
    let e = rs_and(Expr::Xor(VType::I32, b(mgl(spot(0), lit(2)))), lit(3));
    assert_eq!(rewritten(e), Expr::RsMinus(b(n(2)), b(rs_and(spot(0), n(1)))));
}

#[test]
fn host_and_with_all_ones() {
    assert_eq!(rewritten(rs_and(two(0), n(0xFFFF_FFFF))), two(0));
}

#[test]
fn host_and_of_a_unary_over_a_mingle() {
    let m = || mgl(spot(0), spot(1));
    let low = |i: usize| rs_and(spot(i), n(1));
    let e = rs_and(Expr::And(VType::I32, b(m())), lit(1));
    assert_eq!(rewritten(e), Expr::RsAnd(b(low(0)), b(low(1))));
    let e = rs_and(Expr::Or(VType::I32, b(m())), lit(1));
    assert_eq!(rewritten(e), Expr::RsOr(b(low(0)), b(low(1))));
    let e = rs_and(Expr::Xor(VType::I32, b(m())), lit(1));
    assert_eq!(rewritten(e), Expr::RsXor(b(low(0)), b(low(1))));
}

#[test]
fn host_and_twice_and_of_a_test() {
    let e = rs_and(rs_and(two(0), two(1)), two(1));
    assert_eq!(rewritten(e), rs_and(two(0), two(1)));
    let e = rs_and(rs_and(two(0), two(1)), two(0));
    assert_eq!(rewritten(e), rs_and(rs_and(two(0), two(1)), two(0)));
    let t = || Expr::RsNotEqual(b(spot(0)), b(spot(1)));
    assert_eq!(rewritten(rs_and(t(), lit(1))), t());
}

#[test]
fn host_xor_with_all_ones() {
    assert_eq!(
        rewritten(Expr::RsXor(b(two(0)), b(n(0xFFFF_FFFF)))),
        Expr::RsNot(b(two(0)))
    );
    assert_eq!(
        rewritten(Expr::RsXor(b(n(0xFFFF_FFFF)), b(two(0)))),
        Expr::RsNot(b(two(0)))
    );
    assert_eq!(
        rewritten(Expr::RsXor(b(two(0)), b(n(1)))),
        Expr::RsXor(b(two(0)), b(n(1)))
    );
}

#[test]
fn replacements_are_rewritten_in_their_turn() {
    // the operands are rewritten first, then the node, then what replaces it
    let inner = sel(Expr::And(VType::I32, b(mgl(spot(0), spot(1)))), n(0x5555_5555));
    let e = rs_and(rs_and(inner, two(0)), two(0));
    assert_eq!(rewritten(e), rs_and(rs_and(spot(0), spot(1)), two(0)));
    let e = Expr::RsPlus(b(sel(two(0), n(0xFF))), b(Expr::RsNot(b(sel(two(1), n(0xFF00_0000))))));
    assert_eq!(
        rewritten(e),
        Expr::RsPlus(
            b(rs_and(two(0), n(0xFF))),
            b(Expr::RsNot(b(Expr::RsRshift(b(two(1)), b(n(24))))))
        )
    );
}

#[test]
fn subscripts_are_left_alone() {
    let v = || Expr::Var(Var::A16(0, vec![sel(spot(0), n(0xFF))]));
    assert_eq!(rewritten(v()), v());
    assert_eq!(folded(Expr::Var(Var::A16(0, vec![mgl(lit(1), lit(0))]))),
        Expr::Var(Var::A16(0, vec![mgl(lit(1), lit(0))])));
}

fn value(p: &Program, e: &Expr, x: u32, y: u32) -> Val {
    let mut ev = Eval::new(p, Vec::new());
    ev.assign(&Var::I32(0), Val::I32(x)).unwrap();
    ev.assign(&Var::I32(1), Val::I32(y)).unwrap();
    ev.assign(&Var::I16(0), Val::from_u32(x & 0xFFFF)).unwrap();
    ev.assign(&Var::I16(1), Val::from_u32(y & 0xFFFF)).unwrap();
    ev.eval_expr(e).unwrap()
}

#[test]
fn replacements_keep_the_value() {
    let p = program(vec![at(1, 0, StmtBody::GiveUp)]);
    let hi = |x: Expr| sel(x, n(0xAAAA_AAAA));
    let lo = |x: Expr| sel(x, n(0x5555_5555));
    let m = || mgl(spot(0), spot(1));
    let exprs: Vec<Expr> = vec![
        sel(Expr::And(VType::I32, b(m())), n(0x5555_5555)),
        sel(Expr::Or(VType::I32, b(m())), n(0x5555_5555)),
        sel(Expr::Xor(VType::I32, b(m())), n(0x5555_5555)),
        sel(two(0), n(0xFF)),
        sel(two(0), n(0xFFFF_0000)),
        sel(two(0), n(0x0003_FC00)),
        sel(two(0), n(0xFFFF_FFFF)),
        sel(mgl(spot(0), lit(0)), n(0x2AAA_AAAB)),
        mgl(Expr::RsAnd(b(hi(two(0))), b(hi(two(1)))), Expr::RsAnd(b(lo(two(0))), b(lo(two(1))))),
        mgl(Expr::RsOr(b(hi(two(0))), b(hi(two(1)))), Expr::RsOr(b(lo(two(0))), b(lo(two(1))))),
        mgl(Expr::RsXor(b(hi(two(0))), b(hi(two(1)))), Expr::RsXor(b(lo(two(0))), b(lo(two(1))))),
        mgl(rs_and(hi(two(0)), n(0xFFFF)), rs_and(lo(two(0)), n(0xFFFF))),
        mgl(Expr::RsOr(b(hi(two(0))), b(n(0))), Expr::RsOr(b(lo(two(0))), b(n(0)))),
        mgl(Expr::RsNotEqual(b(two(0)), b(n(0))), Expr::RsNotEqual(b(two(1)), b(n(7)))),
        rs_and(sel(two(0), two(0)), lit(1)),
        rs_and(Expr::Xor(VType::I32, b(mgl(spot(0), lit(1)))), lit(3)),
        rs_and(Expr::Xor(VType::I32, b(mgl(spot(0), lit(2)))), lit(3)),
        rs_and(two(0), n(0xFFFF_FFFF)),
        rs_and(Expr::And(VType::I32, b(m())), lit(1)),
        rs_and(Expr::Or(VType::I32, b(m())), lit(1)),
        rs_and(Expr::Xor(VType::I32, b(m())), lit(1)),
        rs_and(rs_and(two(0), two(1)), two(1)),
        rs_and(Expr::RsNotEqual(b(two(0)), b(two(1))), lit(1)),
        Expr::RsXor(b(two(0)), b(n(0xFFFF_FFFF))),
        Expr::RsXor(b(n(0xFFFF_FFFF)), b(two(0))),
    ];
    let states: [(u32, u32); 7] = [
        (0, 0),
        (1, 0),
        (7, 7),
        (0x8001, 0x7FFE),
        (0xDEAD_BEEF, 0x1234_5678),
        (0xFFFF_FFFF, 1),
        (0x0001_0000, 0xFFFF_0000),
    ];
    for e in exprs.iter() {
        let r = rewritten(e.dup());
        assert_ne!(&r, e);
        for &(x, y) in states.iter() {
            assert_eq!(value(&p, &r, x, y).as_u32(), value(&p, e, x, y).as_u32());
        }
    }
}

#[test]
fn a_unary_operator_works_at_the_width_that_it_meets() {
    // SELECT gives a 32-bit value and the host AND that replaces it a
    // 16-bit one: the unary AND around it rotates within another width
    let p = program(vec![at(1, 0, StmtBody::GiveUp)]);
    let e = Expr::And(VType::I16, b(sel(two(0), n(0xFFFF))));
    let r = rewritten(e.dup());
    assert_eq!(r, Expr::And(VType::I16, b(rs_and(two(0), n(0xFFFF)))));
    assert_eq!(value(&p, &e, 0x8001, 0), Val::I32(0));
    assert_eq!(value(&p, &r, 0x8001, 0), Val::I16(0x8000));
}

#[test]
fn literals_of_two_halves_are_put_one_above_the_other() {
    let p = program(vec![at(1, 0, StmtBody::GiveUp)]);
    let hi = |x: Expr| sel(x, n(0xAAAA_AAAA));
    let lo = |x: Expr| sel(x, n(0x5555_5555));
    let e = mgl(rs_and(hi(two(0)), n(1)), rs_and(lo(two(0)), n(0)));
    let r = rewritten(e.dup());
    assert_eq!(r, rs_and(two(0), n(0x0001_0000)));
    assert_eq!(value(&p, &e, 0x0001_0002, 0), Val::I32(2));
    assert_eq!(value(&p, &r, 0x0001_0002, 0), Val::I32(0x0001_0000));
}

#[test]
fn constant_fold_as_a_pass() {
    let p = program(vec![
        at(1, 0, StmtBody::Calc(Var::I32(0), mgl(lit(65535), lit(0)))),
        at(2, 5, StmtBody::Forget(sel(lit(179), lit(201)))),
        at(3, 0, StmtBody::Resume(Expr::And(VType::I16, b(lit(3))))),
        at(4, 0, StmtBody::ReadOut(vec![mgl(lit(1), lit(0))])),
        at(5, 0, StmtBody::Dim(Var::A16(0, vec![]), vec![mgl(lit(1), lit(0))])),
        at(6, 0, StmtBody::GiveUp),
    ]);
    let r = Optimizer::opt_constant_fold(program(vec![
        at(1, 0, StmtBody::Calc(Var::I32(0), mgl(lit(65535), lit(0)))),
        at(2, 5, StmtBody::Forget(sel(lit(179), lit(201)))),
        at(3, 0, StmtBody::Resume(Expr::And(VType::I16, b(lit(3))))),
        at(4, 0, StmtBody::ReadOut(vec![mgl(lit(1), lit(0))])),
        at(5, 0, StmtBody::Dim(Var::A16(0, vec![]), vec![mgl(lit(1), lit(0))])),
        at(6, 0, StmtBody::GiveUp),
    ]));
    assert_eq!(r.stmts[0].body, StmtBody::Calc(Var::I32(0), n(0xAAAA_AAAA)));
    assert_eq!(r.stmts[1].body, StmtBody::Forget(n(9)));
    assert_eq!(r.stmts[2].body, StmtBody::Resume(lit(1)));
    assert_eq!(r.stmts[3], p.stmts[3]);
    assert_eq!(r.stmts[4], p.stmts[4]);
    assert_eq!(r.stmts[5], p.stmts[5]);
    assert_eq!(r.stmts[1].props, p.stmts[1].props);
    assert_eq!(r.labels, p.labels);
    assert_eq!(r.stmt_types, p.stmt_types);
    assert_eq!(r.var_info, p.var_info);
    assert!(r.check());
}

#[test]
fn expressions_as_a_pass() {
    let make = || {
        program(vec![
            at(1, 0, StmtBody::Calc(Var::I32(0), sel(two(1), n(0xFF)))),
            at(2, 0, StmtBody::Resume(Expr::RsXor(b(two(0)), b(n(0xFFFF_FFFF))))),
            at(3, 0, StmtBody::Forget(rs_and(two(0), n(0xFFFF_FFFF)))),
            at(4, 0, StmtBody::ReadOut(vec![sel(two(1), n(0xFF))])),
            at(5, 0, StmtBody::GiveUp),
        ])
    };
    let p = make();
    let r = Optimizer::opt_expressions(make());
    assert_eq!(r.stmts[0].body, StmtBody::Calc(Var::I32(0), rs_and(two(1), n(0xFF))));
    assert_eq!(r.stmts[1].body, StmtBody::Resume(Expr::RsNot(b(two(0)))));
    assert_eq!(r.stmts[2].body, StmtBody::Forget(two(0)));
    assert_eq!(r.stmts[3], p.stmts[3]);
    assert_eq!(r.stmts[4], p.stmts[4]);
    assert!(r.check());
}

fn hello() -> Program {
    program(vec![
        at(1, 0, StmtBody::Calc(Var::I16(0), lit(7))),
        at(2, 0, StmtBody::DoNext(9)),
        at(3, 0, StmtBody::ReadOut(vec![spot(0), lit(4)])),
        at(4, 0, StmtBody::GiveUp),
        at(5, 9, StmtBody::Calc(Var::I16(0), Expr::RsPlus(b(spot(0)), b(lit(2))))),
        at(6, 0, StmtBody::Resume(lit(1))),
    ])
}

#[test]
fn constant_output_reduces_a_program_to_what_it_writes() {
    let r = Optimizer::opt_const_output(hello());
    assert_eq!(r.stmts.len(), 2);
    assert_eq!(r.stmts[0].body, StmtBody::Print(b"  \nIX\n  \nIV\n".to_vec()));
    assert_eq!(r.stmts[1].body, StmtBody::GiveUp);
    assert_eq!(r.stmts[0].props, StmtProps { srcline: 0, chance: 100, disabled: false, label: 0 });
    assert_eq!(r.stmts[1].comefrom, None);
    assert!(r.labels.is_empty());
    assert!(r.stmt_types.is_empty());
    assert_eq!(r.var_info, (vec![], vec![], vec![], vec![]));
    assert!(!r.uses_complex_comefrom && !r.added_syslib && !r.added_floatlib);
    assert_eq!(r.bugline, 2);
    assert!(r.check());
}

#[test]
fn the_constant_program_writes_what_was_captured() {
    let p = hello();
    let mut before = Eval::new(&p, Vec::new());
    assert_eq!(before.eval(), Ok(6));
    let r = Optimizer::opt_const_output(hello());
    let mut after = Eval::new(&r, b"whatever".to_vec());
    assert_eq!(after.eval(), Ok(2));
    assert_eq!(after.output, before.output);
}

#[test]
fn constant_output_leaves_a_program_that_takes_input() {
    let make = || {
        program(vec![
            at(1, 0, StmtBody::WriteIn(Var::I16(0))),
            at(2, 0, StmtBody::ReadOut(vec![spot(0)])),
            at(3, 0, StmtBody::GiveUp),
        ])
    };
    assert_eq!(Optimizer::opt_const_output(make()), make());
}

#[test]
fn constant_output_leaves_a_program_that_runs_by_chance() {
    let make = |syslib: bool, label: u16| {
        let mut p = program(vec![
            at(1, label, StmtBody::Calc(Var::I16(0), lit(1))),
            at(2, 0, StmtBody::ReadOut(vec![lit(1)])),
            at(3, 0, StmtBody::GiveUp),
        ]);
        p.stmts[1].props.chance = 50;
        p.added_syslib = syslib;
        p
    };
    assert_eq!(Optimizer::opt_const_output(make(false, 0)), make(false, 0));
    assert_eq!(Optimizer::opt_const_output(make(false, 1901)), make(false, 1901));
    assert_eq!(Optimizer::opt_const_output(make(true, 1900)), make(true, 1900));
    // behind the label 1901 of the standard library a chance is in order
    let r = Optimizer::opt_const_output(make(true, 1901));
    assert_eq!(r.stmts.len(), 2);
    assert!(
        r.stmts[0].body == StmtBody::Print(Vec::new())
            || r.stmts[0].body == StmtBody::Print(b" \nI\n".to_vec())
    );
}

#[test]
fn constant_output_allows_a_chance_in_the_float_library() {
    let make = |floatlib: bool, label: u16| {
        let mut p = program(vec![
            at(1, label, StmtBody::Calc(Var::I16(0), lit(1))),
            at(2, 0, StmtBody::Calc(Var::I16(0), lit(2))),
            at(3, 0, StmtBody::GiveUp),
        ]);
        p.stmts[1].props.chance = 10;
        p.added_floatlib = floatlib;
        p
    };
    assert_eq!(Optimizer::opt_const_output(make(false, 5401)), make(false, 5401));
    assert_eq!(Optimizer::opt_const_output(make(true, 5400)), make(true, 5400));
    assert_eq!(Optimizer::opt_const_output(make(true, 5401)).stmts.len(), 2);
    assert_eq!(Optimizer::opt_const_output(make(true, 5402)).stmts.len(), 2);
}

#[test]
fn constant_output_leaves_a_program_that_calls_a_random_routine() {
    let make = |target: u16, label: u16| {
        program(vec![
            at(1, label, StmtBody::Calc(Var::I16(0), lit(1))),
            at(2, 0, StmtBody::DoNext(target)),
            at(3, 0, StmtBody::GiveUp),
            at(4, target, StmtBody::Resume(lit(1))),
        ])
    };
    for &t in [1900u16, 1910, 5400].iter() {
        assert_eq!(Optimizer::opt_const_output(make(t, 0)), make(t, 0));
        assert_eq!(Optimizer::opt_const_output(make(t, 7)), make(t, 7));
        assert_eq!(Optimizer::opt_const_output(make(t, 1911)).stmts.len(), 2);
    }
    assert_eq!(Optimizer::opt_const_output(make(1901, 0)).stmts.len(), 2);
}

#[test]
fn constant_output_leaves_a_program_that_fails() {
    let make = || {
        program(vec![
            at(1, 0, StmtBody::ReadOut(vec![lit(1)])),
            at(2, 0, StmtBody::Resume(lit(1))),
            at(3, 0, StmtBody::GiveUp),
        ])
    };
    assert_eq!(Optimizer::opt_const_output(make()), make());
}

#[test]
fn abstain_check_marks_what_is_aimed_at() {
    let p = program(vec![
        at(1, 0, StmtBody::Abstain(vec![Abstain::Label(5), Abstain::StmtType(StmtType::ReadOut)])),
        at(2, 5, StmtBody::Calc(Var::I16(0), lit(1))),
        at(3, 0, StmtBody::Calc(Var::I16(0), lit(2))),
        at(4, 0, StmtBody::ReadOut(vec![spot(0)])),
        at(5, 6, StmtBody::GiveUp),
        at(6, 0, StmtBody::Reinstate(vec![Abstain::Label(6), Abstain::StmtType(StmtType::Next)])),
        at(7, 0, StmtBody::DoNext(5)),
        at(8, 0, StmtBody::ReadOut(vec![lit(1)])),
    ]);
    let r = Optimizer::opt_abstain_check(p);
    let marks: Vec<bool> = r.stmts.iter().map(|s| s.can_abstain).collect();
    assert_eq!(marks, vec![false, true, false, true, false, false, true, true]);
    assert_eq!(r.stmts[1].body, StmtBody::Calc(Var::I16(0), lit(1)));
    assert!(r.check());
}

#[test]
fn abstain_check_without_any_abstain() {
    let r = Optimizer::opt_abstain_check(hello());
    assert!(r.stmts.iter().all(|s| !s.can_abstain));
}

#[test]
fn var_check_marks_what_is_named() {
    let p = program(vec![
        at(1, 0, StmtBody::Stash(vec![Var::I16(0), Var::A32(1, vec![])])),
        at(2, 0, StmtBody::Retrieve(vec![Var::I32(2)])),
        at(3, 0, StmtBody::Ignore(vec![Var::I16(0), Var::I16(2)])),
        at(4, 0, StmtBody::Remember(vec![Var::A16(0, vec![])])),
        at(5, 0, StmtBody::Calc(Var::I16(1), lit(1))),
        at(6, 0, StmtBody::GiveUp),
    ]);
    let r = Optimizer::opt_var_check(p);
    let i = |s: bool, g: bool| VarInfo { can_stash: s, can_ignore: g };
    assert_eq!(r.var_info.0, vec![i(true, true), i(false, false), i(false, true)]);
    assert_eq!(r.var_info.1, vec![i(false, false), i(false, false), i(true, false)]);
    assert_eq!(r.var_info.2, vec![i(false, true), i(false, false)]);
    assert_eq!(r.var_info.3, vec![i(false, false), i(true, false)]);
    assert_eq!(r.stmts.len(), 6);
    assert!(r.check());
}

#[test]
fn the_passes_in_a_row() {
    let make = || {
        program(vec![
            at(1, 0, StmtBody::Calc(Var::I32(0), mgl(lit(65535), lit(0)))),
            at(2, 0, StmtBody::Calc(Var::I32(1), sel(two(0), mgl(lit(255), lit(255))))),
            at(3, 0, StmtBody::Stash(vec![Var::I32(1)])),
            at(4, 0, StmtBody::Abstain(vec![Abstain::StmtType(StmtType::Stash)])),
            at(5, 0, StmtBody::ReadOut(vec![two(1)])),
            at(6, 0, StmtBody::GiveUp),
        ])
    };
    let r = Optimizer::new(make(), false).optimize();
    assert_eq!(r.stmts[0].body, StmtBody::Calc(Var::I32(0), n(0xAAAA_AAAA)));
    assert_eq!(r.stmts[1].body, StmtBody::Calc(Var::I32(1), rs_and(two(0), n(0xFFFF))));
    let marks: Vec<bool> = r.stmts.iter().map(|s| s.can_abstain).collect();
    assert_eq!(marks, vec![false, false, true, false, false, false]);
    let i = |s: bool, g: bool| VarInfo { can_stash: s, can_ignore: g };
    assert_eq!(r.var_info.1, vec![i(false, false), i(true, false), i(false, false)]);
    assert_eq!(r.var_info.0, vec![i(false, false); 3]);

    let p = make();
    let mut before = Eval::new(&p, Vec::new());
    let mut after = Eval::new(&r, Vec::new());
    assert_eq!(before.eval(), after.eval());
    assert_eq!(before.output, after.output);
    assert_eq!(after.output, b"__       \nXLMMMDCXC\n".to_vec());
    assert_eq!(before.twospot[1].val, after.twospot[1].val);
    assert_eq!(before.twospot[0].val, after.twospot[0].val);

    let c = Optimizer::new(make(), true).optimize();
    assert_eq!(c.stmts.len(), 2);
    assert_eq!(c.stmts[0].body, StmtBody::Print(b"__       \nXLMMMDCXC\n".to_vec()));
    assert!(!c.stmts[0].can_abstain && !c.stmts[1].can_abstain);
}

#[test]
fn marking_passes_keep_what_a_program_does() {
    let make = || {
        program(vec![
            at(1, 0, StmtBody::Calc(Var::I32(0), Expr::Xor(VType::I16, b(mgl(lit(3), lit(5)))))),
            at(2, 0, StmtBody::Stash(vec![Var::I32(0)])),
            at(3, 0, StmtBody::Abstain(vec![Abstain::Label(8)])),
            at(4, 8, StmtBody::ReadOut(vec![lit(3)])),
            at(5, 0, StmtBody::ReadOut(vec![two(0)])),
            at(6, 0, StmtBody::GiveUp),
        ])
    };
    let p = make();
    let mut plain = Eval::new(&p, Vec::new());
    let res = plain.eval();
    for r in [
        Optimizer::opt_constant_fold(make()),
        Optimizer::opt_abstain_check(make()),
        Optimizer::opt_var_check(make()),
    ] {
        let mut ev = Eval::new(&r, Vec::new());
        assert_eq!(ev.eval(), res);
        assert_eq!(res, Ok(6));
        assert_eq!(ev.output, plain.output);
        assert_eq!(ev.twospot[0].val, 0x8000_0016);
        assert_eq!(ev.twospot[0].val, plain.twospot[0].val);
        assert_eq!(ev.abstain, plain.abstain);
    }
}
