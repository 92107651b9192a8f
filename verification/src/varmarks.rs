//! The pass that marks the variables that some STASH or RETRIEVE, and
//! those that some IGNORE or REMEMBER, names.

use vstd::prelude::*;
use crate::ast::{Program, StmtBody, Var, VarInfo, VarV};
use crate::opt::Optimizer;
use crate::valid::{var_ok, vars_ok, vars_view};

verus! {

/// The two ways in which a statement names a variable that the pass
/// records.
pub ghost enum Use {
    /// By STASH or RETRIEVE.
    Stash,
    /// By IGNORE or REMEMBER.
    Ignore,
}

/// The four classes of variables.
pub ghost enum Class {
    Spot,
    TwoSpot,
    Tail,
    Hybrid,
}

/// The class of a variable.
pub open spec fn class_of(v: VarV) -> Class {
    match v {
        VarV::I16(_) => Class::Spot,
        VarV::I32(_) => Class::TwoSpot,
        VarV::A16(_, _) => Class::Tail,
        VarV::A32(_, _) => Class::Hybrid,
    }
}

/// The variables that a statement names in the given way.
pub open spec fn names(b: StmtBody, u: Use) -> Option<Seq<VarV>> {
    match u {
        Use::Stash => match b {
            StmtBody::Stash(vs) => Some(vars_view(vs)),
            StmtBody::Retrieve(vs) => Some(vars_view(vs)),
            _ => None,
        },
        Use::Ignore => match b {
            StmtBody::Ignore(vs) => Some(vars_view(vs)),
            StmtBody::Remember(vs) => Some(vars_view(vs)),
            _ => None,
        },
    }
}

/// Whether the variable `k` of the statement `s` is the variable `n` of
/// the class `c`, named in the way `u`.
pub open spec fn named(p: Program, s: int, k: int, u: Use, c: Class, n: int) -> bool {
    &&& 0 <= s < p.stmts.len()
    &&& names(p.stmts[s].body, u) is Some
    &&& 0 <= k < names(p.stmts[s].body, u).unwrap().len()
    &&& class_of(names(p.stmts[s].body, u).unwrap()[k]) == c
    &&& names(p.stmts[s].body, u).unwrap()[k].index() == n
}

/// Whether some statement of the program names the variable `n` of the
/// class `c` in the way `u`.
pub open spec fn mentioned(p: Program, u: Use, c: Class, n: int) -> bool {
    exists|s: int, k: int| #[trigger] named(p, s, k, u, c, n)
}

/// Whether the variable is named before the variable `k` of the
/// statement `s`, in the order of the program.
pub open spec fn mentioned_before(p: Program, s: int, k: int, u: Use, c: Class, n: int) -> bool {
    exists|s1: int, k1: int| #[trigger]
        named(p, s1, k1, u, c, n) && (s1 < s || (s1 == s && k1 < k))
}

/// Whether a table records exactly what is named before the variable `k`
/// of the statement `s`.
pub open spec fn table_marked(t: Seq<VarInfo>, p: Program, s: int, k: int, c: Class) -> bool {
    forall|n: int|
        0 <= n < t.len() ==> {
            &&& (#[trigger] t[n]).can_stash == mentioned_before(p, s, k, Use::Stash, c, n)
            &&& t[n].can_ignore == mentioned_before(p, s, k, Use::Ignore, c, n)
        }
}

/// Whether a table records exactly what the program names.
pub open spec fn table_checked(t: Seq<VarInfo>, p: Program, c: Class) -> bool {
    forall|n: int|
        0 <= n < t.len() ==> {
            &&& (#[trigger] t[n]).can_stash == mentioned(p, Use::Stash, c, n)
            &&& t[n].can_ignore == mentioned(p, Use::Ignore, c, n)
        }
}

/// What the variable check leaves of a program: the program with each of
/// its tables recording exactly what its statements name.
pub open spec fn var_checked(p: Program, r: Program) -> bool {
    &&& r.stmts == p.stmts
    &&& r.labels == p.labels
    &&& r.stmt_types == p.stmt_types
    &&& r.uses_complex_comefrom == p.uses_complex_comefrom
    &&& r.added_syslib == p.added_syslib
    &&& r.added_floatlib == p.added_floatlib
    &&& r.bugline == p.bugline
    &&& r.var_info.0.len() == p.var_info.0.len()
    &&& r.var_info.1.len() == p.var_info.1.len()
    &&& r.var_info.2.len() == p.var_info.2.len()
    &&& r.var_info.3.len() == p.var_info.3.len()
    &&& table_checked(r.var_info.0@, p, Class::Spot)
    &&& table_checked(r.var_info.1@, p, Class::TwoSpot)
    &&& table_checked(r.var_info.2@, p, Class::Tail)
    &&& table_checked(r.var_info.3@, p, Class::Hybrid)
}

proof fn lemma_before_var(p: Program, s: int, k: int, u: Use, c: Class, n: int)
    ensures
        mentioned_before(p, s, k + 1, u, c, n) == (mentioned_before(p, s, k, u, c, n) || named(
            p,
            s,
            k,
            u,
            c,
            n,
        )),
{
    if mentioned_before(p, s, k + 1, u, c, n) {
        let (s1, k1) = choose|s1: int, k1: int| #[trigger]
            named(p, s1, k1, u, c, n) && (s1 < s || (s1 == s && k1 < k + 1));
        if !(s1 == s && k1 == k) {
            assert(named(p, s1, k1, u, c, n) && (s1 < s || (s1 == s && k1 < k)));
        }
    }
    if mentioned_before(p, s, k, u, c, n) {
        let (s1, k1) = choose|s1: int, k1: int| #[trigger]
            named(p, s1, k1, u, c, n) && (s1 < s || (s1 == s && k1 < k));
        assert(named(p, s1, k1, u, c, n) && (s1 < s || (s1 == s && k1 < k + 1)));
    }
    if named(p, s, k, u, c, n) {
        assert(named(p, s, k, u, c, n) && (s < s || (s == s && k < k + 1)));
    }
}

proof fn lemma_before_next(p: Program, s: int, k: int, u: Use, c: Class, n: int)
    requires
        0 <= s < p.stmts.len(),
        match names(p.stmts[s].body, u) {
            Some(vs) => k >= vs.len(),
            None => true,
        },
    ensures
        mentioned_before(p, s + 1, 0, u, c, n) == mentioned_before(p, s, k, u, c, n),
{
    if mentioned_before(p, s + 1, 0, u, c, n) {
        let (s1, k1) = choose|s1: int, k1: int| #[trigger]
            named(p, s1, k1, u, c, n) && (s1 < s + 1 || (s1 == s + 1 && k1 < 0));
        assert(named(p, s1, k1, u, c, n) && (s1 < s || (s1 == s && k1 < k)));
    }
    if mentioned_before(p, s, k, u, c, n) {
        let (s1, k1) = choose|s1: int, k1: int| #[trigger]
            named(p, s1, k1, u, c, n) && (s1 < s || (s1 == s && k1 < k));
        assert(named(p, s1, k1, u, c, n) && (s1 < s + 1 || (s1 == s + 1 && k1 < 0)));
    }
}

proof fn lemma_before_end(p: Program, u: Use, c: Class, n: int)
    ensures
        mentioned_before(p, p.stmts.len() as int, 0, u, c, n) == mentioned(p, u, c, n),
        !mentioned_before(p, 0, 0, u, c, n),
{
    let len = p.stmts.len() as int;
    if mentioned(p, u, c, n) {
        let (s1, k1) = choose|s1: int, k1: int| #[trigger] named(p, s1, k1, u, c, n);
        assert(named(p, s1, k1, u, c, n) && (s1 < len || (s1 == len && k1 < 0)));
    }
    if mentioned_before(p, len, 0, u, c, n) {
        let (s1, k1) = choose|s1: int, k1: int| #[trigger]
            named(p, s1, k1, u, c, n) && (s1 < len || (s1 == len && k1 < 0));
        assert(named(p, s1, k1, u, c, n));
    }
}

/// Moving on by one variable changes a table at most where that variable
/// stands.
proof fn lemma_table_step(t: Seq<VarInfo>, t2: Seq<VarInfo>, p: Program, s: int, k: int, c: Class)
    requires
        table_marked(t, p, s, k, c),
        t2.len() == t.len(),
        forall|n: int|
            0 <= n < t.len() ==> {
                &&& (#[trigger] t2[n]).can_stash == (t[n].can_stash || named(
                    p,
                    s,
                    k,
                    Use::Stash,
                    c,
                    n,
                ))
                &&& t2[n].can_ignore == (t[n].can_ignore || named(p, s, k, Use::Ignore, c, n))
            },
    ensures
        table_marked(t2, p, s, k + 1, c),
{
    assert forall|n: int| 0 <= n < t2.len() implies {
        &&& (#[trigger] t2[n]).can_stash == mentioned_before(p, s, k + 1, Use::Stash, c, n)
        &&& t2[n].can_ignore == mentioned_before(p, s, k + 1, Use::Ignore, c, n)
    } by {
        assert(t[n].can_stash == mentioned_before(p, s, k, Use::Stash, c, n));
        lemma_before_var(p, s, k, Use::Stash, c, n);
        lemma_before_var(p, s, k, Use::Ignore, c, n);
    }
}

/// Moving on to the next statement changes no table.
proof fn lemma_table_next(t: Seq<VarInfo>, p: Program, s: int, k: int, c: Class)
    requires
        0 <= s < p.stmts.len(),
        table_marked(t, p, s, k, c),
        match names(p.stmts[s].body, Use::Stash) {
            Some(vs) => k >= vs.len(),
            None => true,
        },
        match names(p.stmts[s].body, Use::Ignore) {
            Some(vs) => k >= vs.len(),
            None => true,
        },
    ensures
        table_marked(t, p, s + 1, 0, c),
{
    assert forall|n: int| 0 <= n < t.len() implies {
        &&& (#[trigger] t[n]).can_stash == mentioned_before(p, s + 1, 0, Use::Stash, c, n)
        &&& t[n].can_ignore == mentioned_before(p, s + 1, 0, Use::Ignore, c, n)
    } by {
        lemma_before_next(p, s, k, Use::Stash, c, n);
        lemma_before_next(p, s, k, Use::Ignore, c, n);
    }
}

proof fn lemma_table_start(t: Seq<VarInfo>, p: Program, c: Class)
    requires
        forall|n: int| 0 <= n < t.len() ==> !(#[trigger] t[n]).can_stash && !t[n].can_ignore,
    ensures
        table_marked(t, p, 0, 0, c),
{
    assert forall|n: int| 0 <= n < t.len() implies {
        &&& (#[trigger] t[n]).can_stash == mentioned_before(p, 0, 0, Use::Stash, c, n)
        &&& t[n].can_ignore == mentioned_before(p, 0, 0, Use::Ignore, c, n)
    } by {
        lemma_before_end(p, Use::Stash, c, n);
        lemma_before_end(p, Use::Ignore, c, n);
    }
}

proof fn lemma_table_end(t: Seq<VarInfo>, p: Program, c: Class)
    requires
        table_marked(t, p, p.stmts.len() as int, 0, c),
    ensures
        table_checked(t, p, c),
{
    assert forall|n: int| 0 <= n < t.len() implies {
        &&& (#[trigger] t[n]).can_stash == mentioned(p, Use::Stash, c, n)
        &&& t[n].can_ignore == mentioned(p, Use::Ignore, c, n)
    } by {
        lemma_before_end(p, Use::Stash, c, n);
        lemma_before_end(p, Use::Ignore, c, n);
    }
}

fn clear_table(n: usize) -> (t: Vec<VarInfo>)
    ensures
        t.len() == n,
        forall|i: int| 0 <= i < n ==> !(#[trigger] t@[i]).can_stash && !t@[i].can_ignore,
{
    let mut t: Vec<VarInfo> = Vec::new();
    while t.len() < n
        invariant
            t.len() <= n,
            forall|i: int| 0 <= i < t.len() ==> !(#[trigger] t@[i]).can_stash && !t@[i].can_ignore,
        decreases n - t.len(),
    {
        t.push(VarInfo { can_stash: false, can_ignore: false });
    }
    t
}

/// Records in a table that the variable `n` is named.
fn set_mark(t: &mut Vec<VarInfo>, n: usize, stash: bool)
    requires
        n < old(t).len(),
    ensures
        final(t).len() == old(t).len(),
        forall|i: int|
            0 <= i < old(t).len() ==> {
                &&& (#[trigger] final(t)@[i]).can_stash == (old(t)@[i].can_stash || (i == n
                    && stash))
                &&& final(t)@[i].can_ignore == (old(t)@[i].can_ignore || (i == n && !stash))
            },
{
    let info = t[n];
    if stash {
        t.set(n, VarInfo { can_stash: true, can_ignore: info.can_ignore });
    } else {
        t.set(n, VarInfo { can_stash: info.can_stash, can_ignore: true });
    }
}

/// The four tables while the pass is at work.
struct Tables {
    spot: Vec<VarInfo>,
    twospot: Vec<VarInfo>,
    tail: Vec<VarInfo>,
    hybrid: Vec<VarInfo>,
}

impl Tables {
    spec fn fits(&self, p: Program) -> bool {
        &&& self.spot.len() == p.var_info.0.len()
        &&& self.twospot.len() == p.var_info.1.len()
        &&& self.tail.len() == p.var_info.2.len()
        &&& self.hybrid.len() == p.var_info.3.len()
    }

    spec fn marked(&self, p: Program, s: int, k: int) -> bool {
        &&& table_marked(self.spot@, p, s, k, Class::Spot)
        &&& table_marked(self.twospot@, p, s, k, Class::TwoSpot)
        &&& table_marked(self.tail@, p, s, k, Class::Tail)
        &&& table_marked(self.hybrid@, p, s, k, Class::Hybrid)
    }

    /// Records the variable `k` of the statement `s`.
    fn mark(
        &mut self,
        program: &Program,
        var: &Var,
        stash: bool,
        Ghost(s): Ghost<int>,
        Ghost(k): Ghost<int>,
    )
        requires
            old(self).fits(*program),
            old(self).marked(*program, s, k),
            var_ok(var@, program.sizes()),
            0 <= s < program.stmts.len(),
            names(
                program.stmts[s].body,
                if stash {
                    Use::Stash
                } else {
                    Use::Ignore
                },
            ) is Some,
            names(
                program.stmts[s].body,
                if stash {
                    Use::Ignore
                } else {
                    Use::Stash
                },
            ) is None,
            0 <= k < names(
                program.stmts[s].body,
                if stash {
                    Use::Stash
                } else {
                    Use::Ignore
                },
            ).unwrap().len(),
            names(
                program.stmts[s].body,
                if stash {
                    Use::Stash
                } else {
                    Use::Ignore
                },
            ).unwrap()[k] == var@,
        ensures
            final(self).fits(*program),
            final(self).marked(*program, s, k + 1),
    {
        let ghost before = *self;
        match var {
            Var::I16(n) => set_mark(&mut self.spot, *n, stash),
            Var::I32(n) => set_mark(&mut self.twospot, *n, stash),
            Var::A16(n, _) => set_mark(&mut self.tail, *n, stash),
            Var::A32(n, _) => set_mark(&mut self.hybrid, *n, stash),
        }
        proof {
            lemma_table_step(before.spot@, self.spot@, *program, s, k, Class::Spot);
            lemma_table_step(before.twospot@, self.twospot@, *program, s, k, Class::TwoSpot);
            lemma_table_step(before.tail@, self.tail@, *program, s, k, Class::Tail);
            lemma_table_step(before.hybrid@, self.hybrid@, *program, s, k, Class::Hybrid);
        }
    }

    /// Records the variables of the statement `s`.
    fn mark_all(
        &mut self,
        program: &Program,
        vars: &Vec<Var>,
        stash: bool,
        Ghost(s): Ghost<int>,
    )
        requires
            old(self).fits(*program),
            old(self).marked(*program, s, 0),
            vars_ok(vars_view(*vars), program.sizes()),
            0 <= s < program.stmts.len(),
            names(
                program.stmts[s].body,
                if stash {
                    Use::Stash
                } else {
                    Use::Ignore
                },
            ) == Some(vars_view(*vars)),
            names(
                program.stmts[s].body,
                if stash {
                    Use::Ignore
                } else {
                    Use::Stash
                },
            ) is None,
        ensures
            final(self).fits(*program),
            final(self).marked(*program, s + 1, 0),
    {
        let mut k: usize = 0;
        while k < vars.len()
            invariant
                k <= vars.len(),
                self.fits(*program),
                self.marked(*program, s, k as int),
                vars_ok(vars_view(*vars), program.sizes()),
                0 <= s < program.stmts.len(),
                names(
                    program.stmts[s].body,
                    if stash {
                        Use::Stash
                    } else {
                        Use::Ignore
                    },
                ) == Some(vars_view(*vars)),
                names(
                    program.stmts[s].body,
                    if stash {
                        Use::Ignore
                    } else {
                        Use::Stash
                    },
                ) is None,
            decreases vars.len() - k,
        {
            assert(vars_view(*vars)[k as int] == vars[k as int]@);
            self.mark(program, &vars[k], stash, Ghost(s), Ghost(k as int));
            k += 1;
        }
        proof {
            lemma_table_next(self.spot@, *program, s, k as int, Class::Spot);
            lemma_table_next(self.twospot@, *program, s, k as int, Class::TwoSpot);
            lemma_table_next(self.tail@, *program, s, k as int, Class::Tail);
            lemma_table_next(self.hybrid@, *program, s, k as int, Class::Hybrid);
        }
    }
}

impl Optimizer {
    /// Determines for each variable whether it can be stashed and whether
    /// it can be ignored, so that a later stage need not check the others.
    pub fn opt_var_check(program: Program) -> (r: Program)
        requires
            program.wf(),
        ensures
            var_checked(program, r),
            r.wf(),
    {
        let mut program = program;
        let ghost orig = program;
        let mut tables = Tables {
            spot: clear_table(program.var_info.0.len()),
            twospot: clear_table(program.var_info.1.len()),
            tail: clear_table(program.var_info.2.len()),
            hybrid: clear_table(program.var_info.3.len()),
        };
        proof {
            lemma_table_start(tables.spot@, program, Class::Spot);
            lemma_table_start(tables.twospot@, program, Class::TwoSpot);
            lemma_table_start(tables.tail@, program, Class::Tail);
            lemma_table_start(tables.hybrid@, program, Class::Hybrid);
        }
        let n = program.stmts.len();
        let mut s: usize = 0;
        while s < n
            invariant
                s <= n,
                n == program.stmts.len(),
                program == orig,
                program.wf(),
                tables.fits(program),
                tables.marked(program, s as int, 0),
            decreases n - s,
        {
            assert(program.stmt_ok(program.stmts[s as int]));
            match &program.stmts[s].body {
                StmtBody::Stash(vars) => {
                    tables.mark_all(&program, vars, true, Ghost(s as int));
                },
                StmtBody::Retrieve(vars) => {
                    tables.mark_all(&program, vars, true, Ghost(s as int));
                },
                StmtBody::Ignore(vars) => {
                    tables.mark_all(&program, vars, false, Ghost(s as int));
                },
                StmtBody::Remember(vars) => {
                    tables.mark_all(&program, vars, false, Ghost(s as int));
                },
                _ => {
                    proof {
                        lemma_table_next(tables.spot@, program, s as int, 0, Class::Spot);
                        lemma_table_next(tables.twospot@, program, s as int, 0, Class::TwoSpot);
                        lemma_table_next(tables.tail@, program, s as int, 0, Class::Tail);
                        lemma_table_next(tables.hybrid@, program, s as int, 0, Class::Hybrid);
                    }
                },
            }
            s += 1;
        }
        proof {
            lemma_table_end(tables.spot@, program, Class::Spot);
            lemma_table_end(tables.twospot@, program, Class::TwoSpot);
            lemma_table_end(tables.tail@, program, Class::Tail);
            lemma_table_end(tables.hybrid@, program, Class::Hybrid);
        }
        program.var_info = (tables.spot, tables.twospot, tables.tail, tables.hybrid);
        proof {
            assert(program.sizes() == orig.sizes());
            assert forall|j: int| 0 <= j < program.stmts.len() implies program.stmt_ok(
                #[trigger] program.stmts[j],
            ) by {
                assert(orig.stmt_ok(orig.stmts[j]));
            }
        }
        program
    }
}

} // verus!
