use intercal::ast::{Expr, Stmt, StmtBody, StmtProps, VType, Var};
use intercal::cells::{cell_assign, cell_retrieve, cell_set_rw, cell_stash};
use intercal::err::ErrCode;
use intercal::labels::find_label;
use intercal::store::Bind;
use std::collections::BTreeMap;

fn sample() -> Expr {
    Expr::Select(
        Box::new(Expr::Var(Var::A16(
            1,
            vec![Expr::Num(VType::I16, 2), Expr::Var(Var::I32(0))],
        ))),
        Box::new(Expr::Xor(
            VType::I32,
            Box::new(Expr::Mingle(
                Box::new(Expr::Var(Var::I16(3))),
                Box::new(Expr::RsNot(Box::new(Expr::Num(VType::I32, 7)))),
            )),
        )),
    )
}

#[test]
fn a_copy_is_the_same() {
    let e = sample();
    let c = e.dup();
    assert_eq!(c, e);
    assert!(c.same(&e));
    let v = Var::A32(0, vec![sample(), sample()]);
    assert_eq!(v.dup(), v);
    assert!(v.same(&v.dup()));
}

#[test]
fn same_tells_expressions_apart() {
    let e = sample();
    assert!(!e.same(&Expr::Num(VType::I16, 1)));
    assert!(!Expr::Num(VType::I16, 1).same(&Expr::Num(VType::I32, 1)));
    assert!(!Expr::Num(VType::I16, 1).same(&Expr::Num(VType::I16, 2)));
    assert!(Expr::Num(VType::I16, 1).same(&Expr::Num(VType::I16, 1)));
    let a = Expr::Var(Var::A16(1, vec![Expr::Num(VType::I16, 2)]));
    let b = Expr::Var(Var::A16(1, vec![Expr::Num(VType::I16, 3)]));
    let c = Expr::Var(Var::A16(1, vec![Expr::Num(VType::I16, 2), Expr::Num(VType::I16, 2)]));
    let d = Expr::Var(Var::A32(1, vec![Expr::Num(VType::I16, 2)]));
    assert!(!a.same(&b));
    assert!(!a.same(&c));
    assert!(!a.same(&d));
    assert!(a.same(&a.dup()));
    let x = Expr::RsAnd(Box::new(a.dup()), Box::new(b.dup()));
    let y = Expr::RsOr(Box::new(a.dup()), Box::new(b.dup()));
    let z = Expr::RsAnd(Box::new(b.dup()), Box::new(a.dup()));
    assert!(!x.same(&y));
    assert!(!x.same(&z));
    assert!(x.same(&x.dup()));
    assert!(!Var::I16(1).same(&Var::I32(1)));
    assert!(!Var::I16(1).same(&Var::I16(2)));
}

#[test]
fn whole_arrays_are_told_from_elements() {
    assert!(Var::A16(0, vec![]).is_dim());
    assert!(Var::A32(4, vec![]).is_dim());
    assert!(!Var::A16(0, vec![Expr::Num(VType::I16, 1)]).is_dim());
    assert!(!Var::I16(0).is_dim());
    assert!(!Var::I32(0).is_dim());
}

#[test]
fn a_new_statement_has_default_properties() {
    let s = Stmt::new_with(StmtBody::GiveUp);
    assert_eq!(s.body, StmtBody::GiveUp);
    assert_eq!(s.props, StmtProps { srcline: 0, chance: 100, disabled: false, label: 0 });
    assert_eq!(s.comefrom, None);
    assert!(s.can_abstain);
}

#[test]
fn labels_are_found() {
    let mut labels = BTreeMap::new();
    labels.insert(7u16, 3usize);
    labels.insert(65535u16, 0usize);
    assert_eq!(find_label(&labels, 7), Some(3));
    assert_eq!(find_label(&labels, 65535), Some(0));
    assert_eq!(find_label(&labels, 8), None);
}

#[test]
fn cells_in_a_row() {
    let mut row: Vec<Bind<u16>> = vec![Bind::new(0), Bind::new(0), Bind::new(0)];
    cell_assign(&mut row, 1, 5);
    cell_stash(&mut row, 1);
    cell_set_rw(&mut row, 1, false);
    cell_assign(&mut row, 1, 6);
    assert_eq!((row[1].val, row[1].rw), (5, false));
    cell_retrieve(&mut row, 1).unwrap();
    assert_eq!((row[1].val, row[1].rw), (5, true));
    assert_eq!(cell_retrieve(&mut row, 1).unwrap_err().code, ErrCode::IE436);
    assert_eq!((row[0].val, row[2].val), (0, 0));
}
