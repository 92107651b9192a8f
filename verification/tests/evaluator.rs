use std::collections::BTreeMap;

use intercal::ast::{
    Abstain, Expr, Program, Stmt, StmtBody, StmtProps, StmtType, VType, Var, VarInfo,
};
use intercal::err::{ErrCode, Error};
use intercal::eval::Eval;
use intercal::machine::Step;
use intercal::sem::StmtRes;
use intercal::val::Val;

fn kind(body: &StmtBody) -> StmtType {
    match body {
        StmtBody::Calc(_, _) | StmtBody::Dim(_, _) => StmtType::Calc,
        StmtBody::DoNext(_) => StmtType::Next,
        StmtBody::ComeFrom(_) => StmtType::ComeFrom,
        StmtBody::Resume(_) => StmtType::Resume,
        StmtBody::Forget(_) => StmtType::Forget,
        StmtBody::Ignore(_) => StmtType::Ignore,
        StmtBody::Remember(_) => StmtType::Remember,
        StmtBody::Stash(_) => StmtType::Stash,
        StmtBody::Retrieve(_) => StmtType::Retrieve,
        StmtBody::Abstain(_) => StmtType::Abstain,
        StmtBody::Reinstate(_) => StmtType::Reinstate,
        StmtBody::ReadOut(_) => StmtType::ReadOut,
        StmtBody::WriteIn(_) => StmtType::WriteIn,
        _ => StmtType::Other,
    }
}

fn at(line: usize, label: u16, body: StmtBody) -> Stmt {
    Stmt {
        body,
        props: StmtProps { srcline: line, chance: 100, disabled: false, label },
        comefrom: None,
        can_abstain: true,
    }
}

fn program(stmts: Vec<Stmt>) -> Program {
    let mut labels = BTreeMap::new();
    let mut stmt_types = Vec::new();
    for (i, s) in stmts.iter().enumerate() {
        if s.props.label != 0 {
            labels.insert(s.props.label, i);
        }
        stmt_types.push(kind(&s.body));
    }
    let info = VarInfo { can_stash: true, can_ignore: true };
    let p = Program {
        stmts,
        labels,
        stmt_types,
        var_info: (vec![info; 3], vec![info; 3], vec![info; 2], vec![info; 2]),
        uses_complex_comefrom: false,
        added_syslib: false,
        added_floatlib: false,
        bugline: 0,
    };
    assert!(p.check());
    p
}

fn lit(v: u32) -> Expr {
    Expr::Num(VType::I16, v)
}

fn wide(v: u32) -> Expr {
    Expr::Num(VType::I32, v)
}

fn spot(n: usize) -> Expr {
    Expr::Var(Var::I16(n))
}

fn b(e: Expr) -> Box<Expr> {
    Box::new(e)
}

fn text(ev: &Eval) -> String {
    String::from_utf8(ev.output.clone()).unwrap()
}

#[test]
fn host_plus_into_a_scalar() {
    let p = program(vec![
        at(1, 0, StmtBody::Calc(Var::I16(0), Expr::RsPlus(b(lit(1)), b(lit(1))))),
        at(2, 0, StmtBody::GiveUp),
    ]);
    let mut ev = Eval::new(&p, Vec::new());
    assert_eq!(ev.eval(), Ok(2));
    assert!(ev.output.is_empty());
    assert_eq!(ev.spot[0].val, 2);
}

#[test]
fn mingle_read_out_in_roman() {
    let p = program(vec![
        at(1, 0, StmtBody::Calc(Var::I32(0), Expr::Mingle(b(lit(65535)), b(lit(0))))),
        at(2, 0, StmtBody::ReadOut(vec![Expr::Var(Var::I32(0))])),
        at(3, 0, StmtBody::GiveUp),
    ]);
    let mut ev = Eval::new(&p, Vec::new());
    assert_eq!(ev.eval(), Ok(3));
    assert_eq!(ev.twospot[0].val, 0xAAAA_AAAA);
    assert_eq!(text(&ev), "        _______     \nmmdccclxMMMCCCXMDXXX\n");
}

#[test]
fn mingle_does_not_fit_a_16_bit_variable() {
    let p = program(vec![
        at(1, 0, StmtBody::Calc(Var::I16(0), Expr::Mingle(b(lit(65535)), b(lit(0))))),
        at(2, 0, StmtBody::ReadOut(vec![spot(0)])),
        at(3, 0, StmtBody::GiveUp),
    ]);
    let mut ev = Eval::new(&p, Vec::new());
    let e = ev.eval().unwrap_err();
    assert_eq!(e.code, ErrCode::IE275);
    assert_eq!(e.line, Some(1));
    assert!(ev.output.is_empty());
}

#[test]
fn resume_returns_behind_the_next() {
    let p = program(vec![
        at(1, 0, StmtBody::DoNext(7)),
        at(2, 0, StmtBody::GiveUp),
        at(3, 7, StmtBody::Resume(lit(1))),
    ]);
    let mut ev = Eval::new(&p, Vec::new());
    assert_eq!(ev.eval(), Ok(3));
    assert!(ev.jumps.is_empty());
}

#[test]
fn resume_right_behind_its_next_is_met_again() {
    // The statement behind the NEXT is the RESUME itself: it is reached a
    // second time, as the third statement, with nothing left to resume.
    let p = program(vec![
        at(1, 0, StmtBody::DoNext(7)),
        at(2, 7, StmtBody::Resume(lit(1))),
        at(3, 0, StmtBody::GiveUp),
    ]);
    let mut ev = Eval::new(&p, Vec::new());
    let e = ev.eval().unwrap_err();
    assert_eq!(e.code, ErrCode::IE632);
    assert_eq!(e.line, Some(2));
    assert_eq!(ev.stmt_ctr, 3);
}

#[test]
fn resume_with_empty_stack() {
    let p = program(vec![at(41, 0, StmtBody::Resume(lit(1)))]);
    let mut ev = Eval::new(&p, Vec::new());
    let e = ev.eval().unwrap_err();
    assert_eq!(e.code, ErrCode::IE632);
    assert_eq!(e.line, Some(41));
    assert_eq!(e.text, None);
}

#[test]
fn resume_of_zero() {
    let p = program(vec![
        at(1, 0, StmtBody::DoNext(7)),
        at(2, 7, StmtBody::Resume(lit(0))),
    ]);
    let mut ev = Eval::new(&p, Vec::new());
    let e = ev.eval().unwrap_err();
    assert_eq!(e.code, ErrCode::IE621);
    assert_eq!(e.line, Some(2));
    assert_eq!(ev.jumps, vec![0]);
}

#[test]
fn stash_and_retrieve_restore_the_value() {
    let p = program(vec![
        at(1, 0, StmtBody::Calc(Var::I16(0), lit(7))),
        at(2, 0, StmtBody::Stash(vec![Var::I16(0)])),
        at(3, 0, StmtBody::Calc(Var::I16(0), lit(9))),
        at(4, 0, StmtBody::Retrieve(vec![Var::I16(0)])),
        at(5, 0, StmtBody::ReadOut(vec![spot(0)])),
        at(6, 0, StmtBody::GiveUp),
    ]);
    let mut ev = Eval::new(&p, Vec::new());
    assert_eq!(ev.eval(), Ok(6));
    assert_eq!(text(&ev), "   \nVII\n");
}

#[test]
fn come_from_takes_over_behind_its_target() {
    let mut stmts = vec![
        at(1, 2, StmtBody::Calc(Var::I16(0), lit(1))),
        at(2, 0, StmtBody::ComeFrom(2)),
        at(3, 3, StmtBody::ReadOut(vec![spot(0)])),
        at(4, 0, StmtBody::GiveUp),
    ];
    stmts[0].comefrom = Some(1);
    let p = program(stmts);
    let mut ev = Eval::new(&p, Vec::new());
    assert_eq!(ev.eval(), Ok(4));
    assert_eq!(text(&ev), " \nI\n");
}

#[test]
fn come_from_skips_what_lies_between() {
    let mut stmts = vec![
        at(1, 2, StmtBody::Calc(Var::I16(0), lit(1))),
        at(2, 0, StmtBody::Calc(Var::I16(0), lit(5))),
        at(3, 0, StmtBody::ComeFrom(2)),
        at(4, 0, StmtBody::ReadOut(vec![spot(0)])),
        at(5, 0, StmtBody::GiveUp),
    ];
    stmts[0].comefrom = Some(2);
    let p = program(stmts);
    let mut ev = Eval::new(&p, Vec::new());
    assert_eq!(ev.eval(), Ok(4));
    assert_eq!(text(&ev), " \nI\n");
}

#[test]
fn an_abstained_come_from_does_not_take_over() {
    let mut stmts = vec![
        at(1, 2, StmtBody::Calc(Var::I16(0), lit(1))),
        at(2, 0, StmtBody::Calc(Var::I16(0), lit(5))),
        at(3, 0, StmtBody::ComeFrom(2)),
        at(4, 0, StmtBody::ReadOut(vec![spot(0)])),
        at(5, 0, StmtBody::GiveUp),
    ];
    stmts[0].comefrom = Some(2);
    stmts[2].props.disabled = true;
    let p = program(stmts);
    let mut ev = Eval::new(&p, Vec::new());
    assert_eq!(ev.eval(), Ok(5));
    assert_eq!(text(&ev), " \nV\n");
}

#[test]
fn come_from_is_honoured_behind_a_resume() {
    let mut stmts = vec![
        at(1, 1, StmtBody::DoNext(9)),
        at(2, 0, StmtBody::ReadOut(vec![lit(1)])),
        at(3, 0, StmtBody::ComeFrom(1)),
        at(4, 0, StmtBody::GiveUp),
        at(5, 9, StmtBody::Resume(lit(1))),
    ];
    stmts[0].comefrom = Some(2);
    let p = program(stmts);
    let mut ev = Eval::new(&p, Vec::new());
    // NEXT, RESUME, COME FROM, GIVE UP: the READ OUT is passed over
    assert_eq!(ev.eval(), Ok(4));
    assert!(ev.output.is_empty());
}

#[test]
fn falling_off_the_end() {
    let p = program(vec![
        at(10, 0, StmtBody::Calc(Var::I16(0), lit(1))),
        at(20, 0, StmtBody::Calc(Var::I16(1), lit(2))),
    ]);
    let mut ev = Eval::new(&p, Vec::new());
    let e = ev.eval().unwrap_err();
    assert_eq!(e.code, ErrCode::IE663);
    assert_eq!(e.line, Some(20));
    assert_eq!(ev.stmt_ctr, 2);
}

#[test]
fn next_to_an_unknown_label() {
    let p = program(vec![at(5, 0, StmtBody::DoNext(77)), at(6, 0, StmtBody::GiveUp)]);
    let mut ev = Eval::new(&p, Vec::new());
    let e = ev.eval().unwrap_err();
    assert_eq!(e.code, ErrCode::IE129);
    assert_eq!(e.line, Some(5));
}

#[test]
fn the_next_stack_holds_80() {
    let p = program(vec![at(1, 1, StmtBody::DoNext(1))]);
    let mut ev = Eval::new(&p, Vec::new());
    let e = ev.eval().unwrap_err();
    assert_eq!(e.code, ErrCode::IE123);
    assert_eq!(e.line, Some(1));
    assert_eq!(ev.jumps.len(), 80);
    assert_eq!(ev.stmt_ctr, 81);
}

#[test]
fn an_unknown_label_comes_before_a_full_stack() {
    let p = program(vec![
        at(1, 0, StmtBody::DoNext(2)),
        at(2, 2, StmtBody::DoNext(3)),
        at(3, 3, StmtBody::DoNext(77)),
    ]);
    let mut ev = Eval::new(&p, Vec::new());
    for _ in 0..78 {
        ev.jumps.push(0);
    }
    let e = ev.eval().unwrap_err();
    assert_eq!(e.code, ErrCode::IE129);
    assert_eq!(ev.jumps.len(), 80);
}

#[test]
fn forget_drops_what_there_is() {
    let p = program(vec![
        at(1, 0, StmtBody::DoNext(2)),
        at(2, 2, StmtBody::DoNext(3)),
        at(3, 3, StmtBody::Forget(lit(1))),
        at(4, 0, StmtBody::Forget(lit(0))),
        at(5, 0, StmtBody::Forget(lit(5))),
        at(6, 0, StmtBody::Forget(lit(5))),
        at(7, 0, StmtBody::GiveUp),
    ]);
    let mut ev = Eval::new(&p, Vec::new());
    assert_eq!(ev.step_with(true), Step::Running);
    assert_eq!(ev.step_with(true), Step::Running);
    assert_eq!(ev.jumps, vec![0, 1]);
    assert_eq!(ev.step_with(true), Step::Running);
    assert_eq!(ev.jumps, vec![0]);
    assert_eq!(ev.step_with(true), Step::Running);
    assert_eq!(ev.jumps, vec![0]);
    assert_eq!(ev.step_with(true), Step::Running);
    assert!(ev.jumps.is_empty());
    assert_eq!(ev.step_with(true), Step::Running);
    assert_eq!(ev.step_with(true), Step::Done(7));
}

#[test]
fn resume_drops_as_many_as_it_says() {
    let p = program(vec![
        at(1, 0, StmtBody::DoNext(2)),
        at(2, 0, StmtBody::GiveUp),
        at(3, 2, StmtBody::DoNext(3)),
        at(4, 0, StmtBody::ReadOut(vec![lit(1)])),
        at(5, 3, StmtBody::Resume(lit(2))),
    ]);
    let mut ev = Eval::new(&p, Vec::new());
    assert_eq!(ev.eval(), Ok(4));
    assert!(ev.output.is_empty());
    assert!(ev.jumps.is_empty());
}

#[test]
fn ignore_gates_assignments() {
    let p = program(vec![
        at(1, 0, StmtBody::Calc(Var::I16(0), lit(7))),
        at(2, 0, StmtBody::Ignore(vec![Var::I16(0)])),
        at(3, 0, StmtBody::Calc(Var::I16(0), lit(9))),
        at(4, 0, StmtBody::ReadOut(vec![spot(0)])),
        at(5, 0, StmtBody::Remember(vec![Var::I16(0)])),
        at(6, 0, StmtBody::Calc(Var::I16(0), lit(9))),
        at(7, 0, StmtBody::ReadOut(vec![spot(0)])),
        at(8, 0, StmtBody::GiveUp),
    ]);
    let mut ev = Eval::new(&p, Vec::new());
    assert_eq!(ev.eval(), Ok(8));
    assert_eq!(text(&ev), "   \nVII\n  \nIX\n");
}

#[test]
fn an_ignored_variable_still_rejects_what_does_not_fit() {
    let p = program(vec![
        at(1, 0, StmtBody::Ignore(vec![Var::I16(0)])),
        at(2, 0, StmtBody::Calc(Var::I16(0), wide(65536))),
        at(3, 0, StmtBody::GiveUp),
    ]);
    let mut ev = Eval::new(&p, Vec::new());
    let e = ev.eval().unwrap_err();
    assert_eq!(e.code, ErrCode::IE275);
    assert_eq!(e.line, Some(2));
}

#[test]
fn the_write_gate_is_stashed_with_the_value() {
    let p = program(vec![
        at(1, 0, StmtBody::Stash(vec![Var::I32(1)])),
        at(2, 0, StmtBody::Ignore(vec![Var::I32(1)])),
        at(3, 0, StmtBody::Retrieve(vec![Var::I32(1)])),
        at(4, 0, StmtBody::Calc(Var::I32(1), wide(70000))),
        at(5, 0, StmtBody::GiveUp),
    ]);
    let mut ev = Eval::new(&p, Vec::new());
    assert_eq!(ev.eval(), Ok(5));
    assert_eq!(ev.twospot[1].val, 70000);
    assert!(ev.twospot[1].rw);
}

#[test]
fn retrieve_without_stash() {
    let p = program(vec![
        at(1, 0, StmtBody::Stash(vec![Var::I16(0)])),
        at(2, 0, StmtBody::Calc(Var::I16(0), lit(3))),
        at(3, 0, StmtBody::Retrieve(vec![Var::I16(0), Var::I16(1), Var::I16(2)])),
        at(4, 0, StmtBody::GiveUp),
    ]);
    let mut ev = Eval::new(&p, Vec::new());
    let e = ev.eval().unwrap_err();
    assert_eq!(e.code, ErrCode::IE436);
    assert_eq!(e.line, Some(3));
    // the first variable of the list was retrieved before the second failed
    assert_eq!(ev.spot[0].val, 0);
}

#[test]
fn abstain_by_label_and_reinstate() {
    let p = program(vec![
        at(1, 0, StmtBody::Abstain(vec![Abstain::Label(5)])),
        at(2, 5, StmtBody::ReadOut(vec![lit(1)])),
        at(3, 0, StmtBody::Reinstate(vec![Abstain::Label(5)])),
        at(4, 0, StmtBody::Abstain(vec![Abstain::Label(6)])),
        at(5, 6, StmtBody::DoNext(5)),
        at(6, 0, StmtBody::GiveUp),
    ]);
    let mut ev = Eval::new(&p, Vec::new());
    assert_eq!(ev.eval(), Ok(6));
    assert!(ev.output.is_empty());
    assert_eq!(ev.abstain, vec![false, false, false, false, true, false]);
}

#[test]
fn abstain_by_kind() {
    let p = program(vec![
        at(1, 0, StmtBody::Abstain(vec![Abstain::StmtType(StmtType::ReadOut)])),
        at(2, 0, StmtBody::ReadOut(vec![lit(1)])),
        at(3, 0, StmtBody::Calc(Var::I16(0), lit(4))),
        at(4, 0, StmtBody::Reinstate(vec![Abstain::StmtType(StmtType::ReadOut)])),
        at(5, 0, StmtBody::ReadOut(vec![spot(0)])),
        at(6, 0, StmtBody::Abstain(vec![
            Abstain::StmtType(StmtType::Calc),
            Abstain::StmtType(StmtType::ReadOut),
        ])),
        at(7, 0, StmtBody::GiveUp),
    ]);
    let mut ev = Eval::new(&p, Vec::new());
    assert_eq!(ev.eval(), Ok(7));
    assert_eq!(text(&ev), "  \nIV\n");
    assert_eq!(ev.abstain, vec![false, true, true, false, true, false, false]);
}

#[test]
fn statements_start_out_abstained_where_marked() {
    let mut stmts = vec![
        at(1, 0, StmtBody::ReadOut(vec![lit(1)])),
        at(2, 0, StmtBody::ReadOut(vec![lit(2)])),
        at(3, 0, StmtBody::GiveUp),
    ];
    stmts[0].props.disabled = true;
    let p = program(stmts);
    let mut ev = Eval::new(&p, Vec::new());
    assert_eq!(ev.eval(), Ok(3));
    assert_eq!(text(&ev), "  \nII\n");
}

#[test]
fn a_draw_decides_on_a_statement_that_runs_by_chance() {
    let mut stmts = vec![
        at(1, 0, StmtBody::ReadOut(vec![lit(1)])),
        at(2, 0, StmtBody::ReadOut(vec![lit(2)])),
        at(3, 0, StmtBody::GiveUp),
    ];
    stmts[0].props.chance = 50;
    stmts[1].props.chance = 50;
    let p = program(stmts);
    let mut ev = Eval::new(&p, Vec::new());
    assert_eq!(ev.step_with(false), Step::Running);
    assert_eq!(ev.step_with(true), Step::Running);
    assert_eq!(ev.step_with(false), Step::Done(3));
    assert_eq!(text(&ev), "  \nII\n");
}

#[test]
fn step_by_step_as_the_whole_run() {
    let p = program(vec![
        at(1, 0, StmtBody::Calc(Var::I16(0), lit(7))),
        at(2, 0, StmtBody::ReadOut(vec![spot(0)])),
        at(3, 0, StmtBody::GiveUp),
    ]);
    let mut ev = Eval::new(&p, Vec::new());
    assert_eq!(ev.step(), Step::Running);
    assert_eq!((ev.pctr, ev.stmt_ctr), (1, 1));
    assert_eq!(ev.step(), Step::Running);
    assert_eq!(ev.step(), Step::Done(3));
    let mut whole = Eval::new(&p, Vec::new());
    assert_eq!(whole.eval(), Ok(3));
    assert_eq!(whole.output, ev.output);
}

#[test]
fn eval_starts_at_the_first_statement() {
    let p = program(vec![
        at(1, 0, StmtBody::ReadOut(vec![lit(1)])),
        at(2, 0, StmtBody::GiveUp),
    ]);
    let mut ev = Eval::new(&p, Vec::new());
    assert_eq!(ev.eval(), Ok(2));
    assert_eq!(ev.eval(), Ok(4));
    assert_eq!(text(&ev), " \nI\n \nI\n");
}

#[test]
fn expressions_of_intercal() {
    let p = program(vec![at(1, 0, StmtBody::GiveUp)]);
    let mut ev = Eval::new(&p, Vec::new());
    ev.assign(&Var::I16(0), Val::I16(179)).unwrap();
    ev.assign(&Var::I32(0), Val::I32(0x8000_0001)).unwrap();
    let sel = Expr::Select(b(spot(0)), b(lit(201)));
    assert_eq!(ev.eval_expr(&sel), Ok(Val::I32(9)));
    let and16 = Expr::And(VType::I16, b(lit(3)));
    assert_eq!(ev.eval_expr(&and16), Ok(Val::I16(1)));
    let or32 = Expr::Or(VType::I32, b(Expr::Var(Var::I32(0))));
    assert_eq!(ev.eval_expr(&or32), Ok(Val::I32(3221225473)));
    let xor = Expr::Xor(VType::I16, b(Expr::Mingle(b(lit(1)), b(lit(1)))));
    assert_eq!(ev.eval_expr(&xor), Ok(Val::I32(0x8000_0002)));
    let mingle = Expr::Mingle(b(Expr::Var(Var::I32(0))), b(lit(1)));
    assert_eq!(ev.eval_expr(&mingle).unwrap_err().code, ErrCode::IE533);
    assert_eq!(ev.lookup(&Var::I32(0)), Ok(Val::I32(0x8000_0001)));
}

#[test]
fn expressions_of_the_host() {
    let p = program(vec![at(1, 0, StmtBody::GiveUp)]);
    let ev = Eval::new(&p, Vec::new());
    let two = |op: fn(Box<Expr>, Box<Expr>) -> Expr, x: u32, y: u32| {
        ev.eval_expr(&op(b(wide(x)), b(wide(y))))
    };
    assert_eq!(two(Expr::RsAnd, 0xFF00FF, 0x0FF0), Ok(Val::I16(0x00F0)));
    assert_eq!(two(Expr::RsOr, 0xFF0000, 0x0FF0), Ok(Val::I32(0xFF0FF0)));
    assert_eq!(two(Expr::RsXor, 0xFFFF, 0x0FF0), Ok(Val::I16(0xF00F)));
    assert_eq!(two(Expr::RsPlus, 0xFFFF_FFFF, 2), Ok(Val::I16(1)));
    assert_eq!(two(Expr::RsPlus, 65535, 1), Ok(Val::I32(65536)));
    assert_eq!(two(Expr::RsMinus, 1, 2), Ok(Val::I32(0xFFFF_FFFF)));
    assert_eq!(two(Expr::RsMinus, 7, 2), Ok(Val::I16(5)));
    assert_eq!(two(Expr::RsRshift, 0x8000_0000, 31), Ok(Val::I16(1)));
    assert_eq!(two(Expr::RsRshift, 0x8000_0000, 32), Ok(Val::I16(0)));
    assert_eq!(two(Expr::RsLshift, 0x8000_0001, 1), Ok(Val::I16(2)));
    assert_eq!(two(Expr::RsLshift, 1, 40), Ok(Val::I16(0)));
    assert_eq!(two(Expr::RsNotEqual, 3, 4), Ok(Val::I16(1)));
    assert_eq!(two(Expr::RsNotEqual, 4, 4), Ok(Val::I16(0)));
    assert_eq!(ev.eval_expr(&Expr::RsNot(b(wide(0)))), Ok(Val::I32(0xFFFF_FFFF)));
    assert_eq!(ev.eval_expr(&Expr::RsNot(b(wide(0xFFFF_FFF0)))), Ok(Val::I16(15)));
}

#[test]
fn arrays_in_a_program() {
    let elem = |i: u32, j: u32| Var::A16(0, vec![lit(i), lit(j)]);
    let p = program(vec![
        at(1, 0, StmtBody::Dim(Var::A16(0, vec![]), vec![lit(2), lit(3)])),
        at(2, 0, StmtBody::Calc(elem(2, 1), lit(11))),
        at(3, 0, StmtBody::Calc(Var::I16(0), Expr::Var(elem(2, 1)))),
        at(4, 0, StmtBody::ReadOut(vec![Expr::Var(elem(2, 1)), spot(0)])),
        at(5, 0, StmtBody::Calc(Var::I16(1), Expr::Var(elem(3, 1)))),
        at(6, 0, StmtBody::GiveUp),
    ]);
    let mut ev = Eval::new(&p, Vec::new());
    let e = ev.eval().unwrap_err();
    assert_eq!(e.code, ErrCode::IE241);
    assert_eq!(e.line, Some(5));
    assert_eq!(ev.tail[0].val.elems, vec![0, 0, 0, 11, 0, 0]);
    assert_eq!(text(&ev), "  \nXI\n  \nXI\n");
}

#[test]
fn dim_with_a_zero() {
    let p = program(vec![
        at(1, 0, StmtBody::Dim(Var::A32(1, vec![]), vec![lit(2), lit(0)])),
        at(2, 0, StmtBody::GiveUp),
    ]);
    let mut ev = Eval::new(&p, Vec::new());
    let e = ev.eval().unwrap_err();
    assert_eq!(e.code, ErrCode::IE240);
    assert_eq!(e.line, Some(1));
}

#[test]
fn an_array_goes_out_byte_by_byte() {
    let elem = |i: u32| Var::A16(0, vec![lit(i)]);
    let p = program(vec![
        at(1, 0, StmtBody::Dim(Var::A16(0, vec![]), vec![lit(2)])),
        at(2, 0, StmtBody::Calc(elem(1), lit(10))),
        at(3, 0, StmtBody::Calc(elem(2), lit(44))),
        at(4, 0, StmtBody::ReadOut(vec![Expr::Var(Var::A16(0, vec![]))])),
        at(5, 0, StmtBody::ReadOut(vec![Expr::Var(Var::A16(0, vec![]))])),
        at(6, 0, StmtBody::GiveUp),
    ]);
    let mut ev = Eval::new(&p, Vec::new());
    assert_eq!(ev.eval(), Ok(6));
    assert_eq!(ev.output, vec![246, 222, 34, 222]);
    assert_eq!(ev.last_out, 44);
}

#[test]
fn numbers_and_bytes_come_in() {
    let p = program(vec![
        at(1, 0, StmtBody::WriteIn(Var::I16(0))),
        at(2, 0, StmtBody::Dim(Var::A32(0, vec![]), vec![lit(3)])),
        at(3, 0, StmtBody::WriteIn(Var::A32(0, vec![]))),
        at(4, 0, StmtBody::WriteIn(Var::I32(0))),
        at(5, 0, StmtBody::WriteIn(Var::A32(0, vec![lit(1)]))),
        at(6, 0, StmtBody::GiveUp),
    ]);
    let mut input = b"ONE TWO\n".to_vec();
    input.extend_from_slice(&[246, 222, 37]);
    input.extend_from_slice(b"SEVEN OH OH OH OH\nNINE");
    let mut ev = Eval::new(&p, input);
    assert_eq!(ev.eval(), Ok(6));
    assert_eq!(ev.spot[0].val, 12);
    assert_eq!(ev.twospot[0].val, 70000);
    assert_eq!(ev.hybrid[0].val.elems, vec![9, 44, 7]);
    assert_eq!(ev.last_in, 7);
    assert_eq!(ev.in_pos, ev.input.len());
}

#[test]
fn input_that_has_ended() {
    let p = program(vec![
        at(1, 0, StmtBody::WriteIn(Var::I16(0))),
        at(2, 0, StmtBody::WriteIn(Var::I16(1))),
        at(3, 0, StmtBody::GiveUp),
    ]);
    let mut ev = Eval::new(&p, b"FIVE\n".to_vec());
    let e = ev.eval().unwrap_err();
    assert_eq!(e.code, ErrCode::IE562);
    assert_eq!(e.line, Some(2));
    assert_eq!(ev.spot[0].val, 5);
}

#[test]
fn input_that_is_no_text() {
    let p = program(vec![at(1, 0, StmtBody::WriteIn(Var::I16(0))), at(2, 0, StmtBody::GiveUp)]);
    let mut ev = Eval::new(&p, vec![b'O', b'N', b'E', 0xFF, b'\n', b'X']);
    let e = ev.eval().unwrap_err();
    assert_eq!(e.code, ErrCode::IE562);
    assert_eq!(ev.in_pos, 5);
    let mut ok = Eval::new(&p, "ONE\u{00A0}TWO\n".as_bytes().to_vec());
    assert_eq!(ok.eval(), Ok(2));
    assert_eq!(ok.spot[0].val, 12);
}

#[test]
fn input_with_an_unknown_word() {
    let p = program(vec![at(9, 0, StmtBody::WriteIn(Var::I16(0))), at(10, 0, StmtBody::GiveUp)]);
    let mut ev = Eval::new(&p, b"ONE DOZEN\n".to_vec());
    let e = ev.eval().unwrap_err();
    assert_eq!(e.code, ErrCode::IE579);
    assert_eq!(e.line, Some(9));
    assert_eq!(e.text, Some(String::from("DOZEN")));
}

#[test]
fn input_too_wide_for_the_variable() {
    let p = program(vec![at(1, 0, StmtBody::WriteIn(Var::I16(0))), at(2, 0, StmtBody::GiveUp)]);
    let mut ev = Eval::new(&p, b"SEVEN OH OH OH OH\n".to_vec());
    assert_eq!(ev.eval().unwrap_err().code, ErrCode::IE275);
    let mut ev = Eval::new(&p, b"NINE NINE NINE NINE NINE NINE NINE NINE NINE NINE\n".to_vec());
    assert_eq!(ev.eval().unwrap_err().code, ErrCode::IE533);
}

#[test]
fn print_writes_its_bytes() {
    let p = program(vec![
        at(1, 0, StmtBody::Print(vec![72, 105, 0, 255])),
        at(2, 0, StmtBody::GiveUp),
    ]);
    let mut ev = Eval::new(&p, Vec::new());
    assert_eq!(ev.eval(), Ok(2));
    assert_eq!(ev.output, vec![72, 105, 0, 255]);
}

#[test]
fn an_error_statement_fails_with_its_error() {
    let mut carried = Error::with_str(ErrCode::IE017, "bad");
    let p = program(vec![at(3, 0, StmtBody::Error(carried.dup())), at(4, 0, StmtBody::GiveUp)]);
    let mut ev = Eval::new(&p, Vec::new());
    let e = ev.eval().unwrap_err();
    assert_eq!(e.code, ErrCode::IE017);
    assert_eq!(e.line, Some(3));
    assert_eq!(e.text, Some(String::from("bad")));
    carried.set_line(77);
    let p = program(vec![at(3, 0, StmtBody::Error(carried)), at(4, 0, StmtBody::GiveUp)]);
    let mut ev = Eval::new(&p, Vec::new());
    assert_eq!(ev.eval().unwrap_err().line, Some(77));
}

#[test]
fn the_statement_counter_cannot_run_over() {
    let p = program(vec![at(8, 1, StmtBody::DoNext(1))]);
    let mut ev = Eval::new(&p, Vec::new());
    ev.stmt_ctr = usize::MAX;
    let e = ev.eval().unwrap_err();
    assert_eq!(e.code, ErrCode::IE666);
    assert_eq!(e.line, Some(8));
}

#[test]
fn statements_give_their_direction() {
    let p = program(vec![
        at(1, 4, StmtBody::DoNext(4)),
        at(2, 0, StmtBody::GiveUp),
    ]);
    let mut ev = Eval::new(&p, Vec::new());
    assert_eq!(ev.eval_stmt(&p.stmts[0]), Ok(StmtRes::Jump(0)));
    assert_eq!(ev.eval_stmt(&p.stmts[1]), Ok(StmtRes::End));
    ev.jumps.push(1);
    assert_eq!(ev.resume(1), Ok(StmtRes::Back(1)));
    assert_eq!(ev.do_next(9).unwrap_err().code, ErrCode::IE129);
}

#[test]
fn a_program_is_checked() {
    let good = program(vec![at(1, 0, StmtBody::GiveUp)]);
    assert!(good.check());
    let mut empty = program(vec![at(1, 0, StmtBody::GiveUp)]);
    empty.stmts.clear();
    empty.stmt_types.clear();
    assert!(!empty.check());
    let mut p = program(vec![at(1, 0, StmtBody::GiveUp)]);
    p.stmts[0].body = StmtBody::Calc(Var::I16(3), lit(1));
    assert!(!p.check());
    p.stmts[0].body = StmtBody::Calc(Var::I16(2), lit(65536));
    assert!(!p.check());
    p.stmts[0].body = StmtBody::Calc(Var::A16(1, vec![spot(5)]), lit(1));
    assert!(!p.check());
    p.stmts[0].body = StmtBody::Abstain(vec![Abstain::Label(4)]);
    assert!(!p.check());
    p.stmts[0].body = StmtBody::Dim(Var::I16(0), vec![lit(1)]);
    assert!(!p.check());
    p.stmts[0].body = StmtBody::GiveUp;
    p.stmts[0].comefrom = Some(1);
    assert!(!p.check());
    p.stmts[0].comefrom = Some(0);
    assert!(p.check());
}
