//! The AST-rewriting optimizer: constant propagation and folding, algebraic
//! identities, dead-branch elimination, and removal of declarations whose
//! names are never referenced. One pass (a) collects the referenced names,
//! (b) rewrites the program bottom-up with a table of known constants, and
//! (c) deletes unused declarations; passes repeat to a fixed point, bounded
//! at ten iterations, after which the current best rewrite is returned.
//!
//! Folding an integer operation whose exact result does not fit the 32-bit
//! range counts as a folding failure and leaves the node unchanged.

use vstd::prelude::*;
use vstd::string::*;
use crate::ast::{clone_expr, clone_stmt, expr_view, stmt_view, stmts_eq, stmts_view, BinOp, Expr, SpecExpr, SpecStmt, Stmt};
use crate::text::str_eq;

verus! {

/// A compile-time-known value of a variable.
#[derive(Debug, Clone, PartialEq)]
pub enum ConstValue {
    Int(i32),
    String(String),
    Bool(bool),
}

/// The ghost counterpart of `ConstValue`.
pub enum SpecConstValue {
    Int(i32),
    String(Seq<char>),
    Bool(bool),
}

/// The model of a known constant.
pub open spec fn const_view(c: ConstValue) -> SpecConstValue {
    match c {
        ConstValue::Int(n) => SpecConstValue::Int(n),
        ConstValue::String(s) => SpecConstValue::String(s@),
        ConstValue::Bool(b) => SpecConstValue::Bool(b),
    }
}

/// The constant table: bindings from name to known value, newest last.
pub open spec fn tbl_view(t: Seq<(String, ConstValue)>) -> Seq<(Seq<char>, SpecConstValue)> {
    Seq::new(t.len(), |i: int| (t[i].0@, const_view(t[i].1)))
}

/// Looks a name up in the constant table, newest binding first.
pub open spec fn tbl_lookup(tbl: Seq<(Seq<char>, SpecConstValue)>, name: Seq<char>) -> Option<
    SpecConstValue,
>
    decreases tbl.len(),
{
    if tbl.len() == 0 {
        None
    } else if tbl.last().0 == name {
        Some(tbl.last().1)
    } else {
        tbl_lookup(tbl.drop_last(), name)
    }
}

/// Drops every binding of `name` from the table.
pub open spec fn tbl_remove(tbl: Seq<(Seq<char>, SpecConstValue)>, name: Seq<char>) -> Seq<
    (Seq<char>, SpecConstValue),
>
    decreases tbl.len(),
{
    if tbl.len() == 0 {
        tbl
    } else if tbl.last().0 == name {
        tbl_remove(tbl.drop_last(), name)
    } else {
        tbl_remove(tbl.drop_last(), name).push(tbl.last())
    }
}

/// The set of referenced names, first reference first.
pub open spec fn used_insert(used: Seq<Seq<char>>, name: Seq<char>) -> Seq<Seq<char>> {
    if used.contains(name) {
        used
    } else {
        used.push(name)
    }
}

/// The constant value an already-optimized expression denotes, if it is a
/// literal.
pub open spec fn spec_eval_const(e: SpecExpr) -> Option<SpecConstValue> {
    match e {
        SpecExpr::IntegerLiteral(n) => Some(SpecConstValue::Int(n)),
        SpecExpr::StringLiteral(s) => Some(SpecConstValue::String(s)),
        SpecExpr::BooleanLiteral(b) => Some(SpecConstValue::Bool(b)),
        _ => None,
    }
}

/// Folds an operation on two known constants into a literal. Integer results
/// outside the 32-bit range, and type-incompatible combinations, do not fold.
pub open spec fn spec_fold(l: SpecConstValue, op: BinOp, r: SpecConstValue) -> Option<SpecExpr> {
    match (l, op, r) {
        (SpecConstValue::Int(a), BinOp::Add, SpecConstValue::Int(b)) => if i32::MIN <= a + b
            <= i32::MAX {
            Some(SpecExpr::IntegerLiteral((a + b) as i32))
        } else {
            None
        },
        (SpecConstValue::Int(a), BinOp::Sub, SpecConstValue::Int(b)) => if i32::MIN <= a - b
            <= i32::MAX {
            Some(SpecExpr::IntegerLiteral((a - b) as i32))
        } else {
            None
        },
        (SpecConstValue::Int(a), BinOp::GreaterThan, SpecConstValue::Int(b)) => Some(
            SpecExpr::BooleanLiteral(a > b),
        ),
        (SpecConstValue::Int(a), BinOp::LessThan, SpecConstValue::Int(b)) => Some(
            SpecExpr::BooleanLiteral(a < b),
        ),
        (SpecConstValue::String(a), BinOp::Add, SpecConstValue::String(b)) => Some(
            SpecExpr::StringLiteral(a + b),
        ),
        _ => None,
    }
}

/// Rewrites an expression: constant propagation, folding, and the identities
/// `x + 0 = x`, `0 + x = x`, `x - 0 = x`. Reassignment invalidates a name's
/// known constant.
pub open spec fn spec_optimize_expr(
    tbl: Seq<(Seq<char>, SpecConstValue)>,
    e: SpecExpr,
) -> (Seq<(Seq<char>, SpecConstValue)>, SpecExpr)
    decreases e,
{
    match e {
        SpecExpr::Identifier(name) => (
            tbl,
            match tbl_lookup(tbl, name) {
                Some(SpecConstValue::Int(n)) => SpecExpr::IntegerLiteral(n),
                Some(SpecConstValue::String(s)) => SpecExpr::StringLiteral(s),
                Some(SpecConstValue::Bool(b)) => SpecExpr::BooleanLiteral(b),
                None => SpecExpr::Identifier(name),
            },
        ),
        SpecExpr::Binary { left, op, right } => {
            let (t1, l) = spec_optimize_expr(tbl, *left);
            let (t2, r) = spec_optimize_expr(t1, *right);
            (t2, spec_combine_binary(l, op, r))
        },
        SpecExpr::Assign { name, value } => {
            let (t1, v) = spec_optimize_expr(tbl, *value);
            (tbl_remove(t1, name), SpecExpr::Assign { name, value: Box::new(v) })
        },
        _ => (tbl, e),
    }
}

/// Combines two already-optimized operands: fold if both are constants,
/// else apply an identity, else rebuild the node.
pub open spec fn spec_combine_binary(l: SpecExpr, op: BinOp, r: SpecExpr) -> SpecExpr {
    let folded = if spec_eval_const(l) is Some && spec_eval_const(r) is Some {
        spec_fold(spec_eval_const(l)->0, op, spec_eval_const(r)->0)
    } else {
        None
    };
    match folded {
        Some(e) => e,
        None => {
            if op == BinOp::Add && l == SpecExpr::IntegerLiteral(0) {
                r
            } else if op == BinOp::Add && r == SpecExpr::IntegerLiteral(0) {
                l
            } else if op == BinOp::Sub && r == SpecExpr::IntegerLiteral(0) {
                l
            } else {
                SpecExpr::Binary { left: Box::new(l), op, right: Box::new(r) }
            }
        },
    }
}

/// Rewrites one statement into zero or more statements.
pub open spec fn spec_optimize_stmt(
    tbl: Seq<(Seq<char>, SpecConstValue)>,
    s: SpecStmt,
) -> (Seq<(Seq<char>, SpecConstValue)>, Seq<SpecStmt>)
    decreases s, 0int,
{
    match s {
        SpecStmt::VarDeclaration { name, value } => {
            let (t1, v) = spec_optimize_expr(tbl, value);
            let t2 = match spec_eval_const(v) {
                Some(c) => t1.push((name, c)),
                None => tbl_remove(t1, name),
            };
            (t2, seq![SpecStmt::VarDeclaration { name, value: v }])
        },
        SpecStmt::Print(e) => {
            let (t1, e2) = spec_optimize_expr(tbl, e);
            (t1, seq![SpecStmt::Print(e2)])
        },
        SpecStmt::Block(ss) => {
            let (t1, ss2) = spec_optimize_stmts(tbl, ss);
            (t1, seq![SpecStmt::Block(ss2)])
        },
        SpecStmt::If { condition, then_block, else_block } => {
            let (t1, cond) = spec_optimize_expr(tbl, condition);
            if spec_eval_const(cond) matches Some(SpecConstValue::Bool(b)) {
                if spec_eval_const(cond) == Some(SpecConstValue::Bool(true)) {
                    spec_optimize_stmts(t1, then_block)
                } else {
                    match else_block {
                        Some(ss) => spec_optimize_stmts(t1, ss),
                        None => (t1, Seq::empty()),
                    }
                }
            } else {
                let (t2, then2) = spec_optimize_stmts(t1, then_block);
                match else_block {
                    Some(ss) => {
                        let (t3, else2) = spec_optimize_stmts(t2, ss);
                        (
                            t3,
                            seq![
                                SpecStmt::If {
                                    condition: cond,
                                    then_block: then2,
                                    else_block: Some(else2),
                                },
                            ],
                        )
                    },
                    None => (
                        t2,
                        seq![
                            SpecStmt::If { condition: cond, then_block: then2, else_block: None },
                        ],
                    ),
                }
            }
        },
        SpecStmt::ExprStmt(e) => {
            let (t1, e2) = spec_optimize_expr(tbl, e);
            (t1, seq![SpecStmt::ExprStmt(e2)])
        },
        SpecStmt::Paywall(n) => (tbl, seq![SpecStmt::Paywall(n)]),
    }
}

/// Rewrites the statements of `ss` from index `i` on, concatenating the
/// results.
pub open spec fn spec_optimize_stmts_from(
    tbl: Seq<(Seq<char>, SpecConstValue)>,
    ss: Seq<SpecStmt>,
    i: int,
) -> (Seq<(Seq<char>, SpecConstValue)>, Seq<SpecStmt>)
    decreases ss, ss.len() - i,
{
    if 0 <= i < ss.len() {
        let (t1, out1) = spec_optimize_stmt(tbl, ss[i]);
        let (t2, rest) = spec_optimize_stmts_from(t1, ss, i + 1);
        (t2, out1 + rest)
    } else {
        (tbl, Seq::empty())
    }
}

/// Rewrites a statement list in order.
pub open spec fn spec_optimize_stmts(
    tbl: Seq<(Seq<char>, SpecConstValue)>,
    ss: Seq<SpecStmt>,
) -> (Seq<(Seq<char>, SpecConstValue)>, Seq<SpecStmt>)
    decreases ss, ss.len() + 1,
{
    spec_optimize_stmts_from(tbl, ss, 0)
}

/// Collects the names an expression references. An assignment target counts
/// as a reference.
pub open spec fn spec_collect_expr(used: Seq<Seq<char>>, e: SpecExpr) -> Seq<Seq<char>>
    decreases e,
{
    match e {
        SpecExpr::Identifier(name) => used_insert(used, name),
        SpecExpr::Binary { left, op, right } => spec_collect_expr(
            spec_collect_expr(used, *left),
            *right,
        ),
        SpecExpr::Assign { name, value } => spec_collect_expr(used_insert(used, name), *value),
        _ => used,
    }
}

/// Collects the names a statement references.
pub open spec fn spec_collect_stmt(used: Seq<Seq<char>>, s: SpecStmt) -> Seq<Seq<char>>
    decreases s, 0int,
{
    match s {
        SpecStmt::VarDeclaration { name, value } => spec_collect_expr(used, value),
        SpecStmt::Print(e) => spec_collect_expr(used, e),
        SpecStmt::If { condition, then_block, else_block } => {
            let u1 = spec_collect_expr(used, condition);
            let u2 = spec_collect_stmts(u1, then_block);
            match else_block {
                Some(ss) => spec_collect_stmts(u2, ss),
                None => u2,
            }
        },
        SpecStmt::Block(ss) => spec_collect_stmts(used, ss),
        SpecStmt::ExprStmt(e) => spec_collect_expr(used, e),
        SpecStmt::Paywall(_) => used,
    }
}

/// Collects over the statements of `ss` from index `i` on.
pub open spec fn spec_collect_stmts_from(used: Seq<Seq<char>>, ss: Seq<SpecStmt>, i: int) -> Seq<
    Seq<char>,
>
    decreases ss, ss.len() - i,
{
    if 0 <= i < ss.len() {
        spec_collect_stmts_from(spec_collect_stmt(used, ss[i]), ss, i + 1)
    } else {
        used
    }
}

/// Collects over a statement list in order.
pub open spec fn spec_collect_stmts(used: Seq<Seq<char>>, ss: Seq<SpecStmt>) -> Seq<Seq<char>>
    decreases ss, ss.len() + 1,
{
    spec_collect_stmts_from(used, ss, 0)
}

/// Deletes declarations of unreferenced names, everywhere in the tree, from
/// index `i` on.
pub open spec fn spec_dce_stmts_from(used: Seq<Seq<char>>, ss: Seq<SpecStmt>, i: int) -> Seq<
    SpecStmt,
>
    decreases ss, ss.len() - i,
{
    if 0 <= i < ss.len() {
        let rest = spec_dce_stmts_from(used, ss, i + 1);
        match ss[i] {
            SpecStmt::VarDeclaration { name, value } => if used.contains(name) {
                seq![ss[i]] + rest
            } else {
                rest
            },
            SpecStmt::Block(b) => seq![SpecStmt::Block(spec_dce_stmts_from(used, b, 0))] + rest,
            SpecStmt::If { condition, then_block, else_block } => seq![
                SpecStmt::If {
                    condition,
                    then_block: spec_dce_stmts_from(used, then_block, 0),
                    else_block: match else_block {
                        Some(e) => Some(spec_dce_stmts_from(used, e, 0)),
                        None => None,
                    },
                },
            ] + rest,
            _ => seq![ss[i]] + rest,
        }
    } else {
        Seq::empty()
    }
}

/// Deletes declarations of unreferenced names.
pub open spec fn spec_dce_stmts(used: Seq<Seq<char>>, ss: Seq<SpecStmt>) -> Seq<SpecStmt> {
    spec_dce_stmts_from(used, ss, 0)
}

/// One optimization pass: collect references, rewrite, delete dead
/// declarations.
pub open spec fn spec_opt_pass(ss: Seq<SpecStmt>) -> Seq<SpecStmt> {
    let used = spec_collect_stmts(Seq::empty(), ss);
    let rewritten = spec_optimize_stmts(Seq::empty(), ss).1;
    spec_dce_stmts(used, rewritten)
}

/// Passes repeated to a fixed point, at most `fuel` times.
pub open spec fn spec_opt_iter(ss: Seq<SpecStmt>, fuel: nat) -> Seq<SpecStmt>
    decreases fuel,
{
    if fuel == 0 {
        ss
    } else {
        let c = spec_opt_pass(ss);
        if c == ss {
            ss
        } else {
            spec_opt_iter(c, (fuel - 1) as nat)
        }
    }
}

/// What optimization yields: the fixed point of the pass, or the tenth
/// iterate if the bound is reached first.
pub open spec fn spec_optimize(ss: Seq<SpecStmt>) -> Seq<SpecStmt> {
    spec_opt_iter(ss, 10)
}

/// Whether iteration reaches a fixed point of the pass within `fuel` steps.
pub open spec fn spec_opt_converges(ss: Seq<SpecStmt>, fuel: nat) -> bool
    decreases fuel,
{
    if fuel == 0 {
        false
    } else if spec_opt_pass(ss) == ss {
        true
    } else {
        spec_opt_converges(spec_opt_pass(ss), (fuel - 1) as nat)
    }
}

/// An already-optimal input is a fixed point: one more application of the
/// optimizer changes nothing.
pub proof fn lemma_optimize_fixed_point(ss: Seq<SpecStmt>)
    requires
        spec_opt_pass(ss) == ss,
    ensures
        spec_optimize(ss) == ss,
{
}

proof fn lemma_opt_iter_converged(ss: Seq<SpecStmt>, fuel: nat)
    requires
        spec_opt_converges(ss, fuel),
    ensures
        spec_opt_pass(spec_opt_iter(ss, fuel)) == spec_opt_iter(ss, fuel),
    decreases fuel,
{
    if fuel > 0 && spec_opt_pass(ss) != ss {
        lemma_opt_iter_converged(spec_opt_pass(ss), (fuel - 1) as nat);
    }
}

/// Optimizing is idempotent: when the pass iteration converges within its
/// bound, running the optimizer on its own output is a no-op.
pub proof fn lemma_optimize_idempotent(ss: Seq<SpecStmt>)
    requires
        spec_opt_converges(ss, 10),
    ensures
        spec_optimize(spec_optimize(ss)) == spec_optimize(ss),
{
    lemma_opt_iter_converged(ss, 10);
    lemma_optimize_fixed_point(spec_optimize(ss));
}

fn clone_const(c: &ConstValue) -> (r: ConstValue)
    ensures
        const_view(r) == const_view(*c),
{
    match c {
        ConstValue::Int(n) => ConstValue::Int(*n),
        ConstValue::String(s) => ConstValue::String(s.clone()),
        ConstValue::Bool(b) => ConstValue::Bool(*b),
    }
}

fn is_zero_literal(e: &Expr) -> (r: bool)
    ensures
        r == (expr_view(*e) == SpecExpr::IntegerLiteral(0)),
{
    match e {
        Expr::IntegerLiteral(n) => *n == 0,
        _ => false,
    }
}

/// The optimizer: the table of known constants and the set of referenced
/// names, both rebuilt at the start of every pass.
pub struct Optimizer {
    constants: Vec<(String, ConstValue)>,
    used_vars: Vec<String>,
}

impl Optimizer {
    /// The constant table's model.
    pub closed spec fn tbl(&self) -> Seq<(Seq<char>, SpecConstValue)> {
        tbl_view(self.constants@)
    }

    /// The referenced-name set's model.
    pub closed spec fn used(&self) -> Seq<Seq<char>> {
        Seq::new(self.used_vars@.len(), |i: int| self.used_vars@[i]@)
    }

    pub fn new() -> (o: Optimizer)
        ensures
            o.tbl() == Seq::<(Seq<char>, SpecConstValue)>::empty(),
            o.used() == Seq::<Seq<char>>::empty(),
    {
        let o = Optimizer { constants: Vec::new(), used_vars: Vec::new() };
        proof {
            assert(o.tbl() =~= Seq::<(Seq<char>, SpecConstValue)>::empty());
            assert(o.used() =~= Seq::<Seq<char>>::empty());
        }
        o
    }

    fn tbl_get(&self, name: &str) -> (r: Option<ConstValue>)
        ensures
            match r {
                Some(c) => tbl_lookup(self.tbl(), name@) == Some(const_view(c)),
                None => tbl_lookup(self.tbl(), name@) is None,
            },
    {
        let mut j: usize = self.constants.len();
        proof {
            assert(self.tbl().take(self.constants@.len() as int) =~= self.tbl());
        }
        while j > 0
            invariant
                0 <= j <= self.constants@.len(),
                tbl_lookup(self.tbl(), name@) == tbl_lookup(self.tbl().take(j as int), name@),
            decreases j,
        {
            proof {
                assert(self.tbl().take(j as int).last() == (self.constants@[j - 1].0@, const_view(
                    self.constants@[j - 1].1,
                )));
                assert(self.tbl().take(j as int).drop_last() =~= self.tbl().take(j - 1));
            }
            if str_eq(self.constants[j - 1].0.as_str(), name) {
                return Some(clone_const(&self.constants[j - 1].1));
            }
            j -= 1;
        }
        proof {
            assert(self.tbl().take(0) =~= Seq::<(Seq<char>, SpecConstValue)>::empty());
        }
        None
    }

    fn remove_constant(&mut self, name: &str)
        ensures
            final(self).tbl() == tbl_remove(old(self).tbl(), name@),
            final(self).used() == old(self).used(),
    {
        let mut out: Vec<(String, ConstValue)> = Vec::new();
        let mut i: usize = 0;
        proof {
            assert(old(self).tbl().take(0) =~= Seq::<(Seq<char>, SpecConstValue)>::empty());
            assert(tbl_view(out@) =~= tbl_remove(old(self).tbl().take(0), name@));
        }
        while i < self.constants.len()
            invariant
                0 <= i <= self.constants@.len(),
                self.constants@ == old(self).constants@,
                self.used_vars@ == old(self).used_vars@,
                tbl_view(out@) == tbl_remove(old(self).tbl().take(i as int), name@),
            decreases self.constants@.len() - i,
        {
            proof {
                assert(old(self).tbl().take(i + 1).last() == (self.constants@[i as int].0@,
                const_view(self.constants@[i as int].1)));
                assert(old(self).tbl().take(i + 1).drop_last() =~= old(self).tbl().take(i as int));
            }
            if !str_eq(self.constants[i].0.as_str(), name) {
                let ghost prev = tbl_view(out@);
                out.push((self.constants[i].0.clone(), clone_const(&self.constants[i].1)));
                proof {
                    assert(tbl_view(out@) =~= prev.push(
                        (self.constants@[i as int].0@, const_view(self.constants@[i as int].1)),
                    ));
                }
            }
            i += 1;
        }
        proof {
            assert(old(self).tbl().take(self.constants@.len() as int) =~= old(self).tbl());
        }
        self.constants = out;
        proof {
            assert(final(self).used() =~= old(self).used());
        }
    }

    fn used_contains(&self, name: &str) -> (r: bool)
        ensures
            r == self.used().contains(name@),
    {
        let mut i: usize = 0;
        while i < self.used_vars.len()
            invariant
                0 <= i <= self.used_vars@.len(),
                forall|k: int| 0 <= k < i ==> self.used()[k] != name@,
            decreases self.used_vars@.len() - i,
        {
            if str_eq(self.used_vars[i].as_str(), name) {
                proof {
                    assert(self.used()[i as int] == name@);
                }
                return true;
            }
            i += 1;
        }
        proof {
            assert(!self.used().contains(name@)) by {
                if self.used().contains(name@) {
                    let k = choose|k: int|
                        0 <= k < self.used().len() && self.used()[k] == name@;
                }
            }
        }
        false
    }

    fn record_used(&mut self, name: &String)
        ensures
            final(self).used() == used_insert(old(self).used(), name@),
            final(self).tbl() == old(self).tbl(),
    {
        if !self.used_contains(name.as_str()) {
            self.used_vars.push(name.clone());
            proof {
                assert(self.used() =~= old(self).used().push(name@));
            }
        }
    }

    /// The constant value an expression denotes, if it is a literal.
    fn eval_const(&self, expr: &Expr) -> (r: Option<ConstValue>)
        ensures
            match r {
                Some(c) => spec_eval_const(expr_view(*expr)) == Some(const_view(c)),
                None => spec_eval_const(expr_view(*expr)) is None,
            },
    {
        match expr {
            Expr::IntegerLiteral(n) => Some(ConstValue::Int(*n)),
            Expr::StringLiteral(s) => Some(ConstValue::String(s.clone())),
            Expr::BooleanLiteral(b) => Some(ConstValue::Bool(*b)),
            _ => None,
        }
    }

    /// Folds two known constants into a literal, when the operator applies
    /// and an integer result fits the 32-bit range.
    fn fold(&self, l: ConstValue, op: &BinOp, r: ConstValue) -> (res: Option<Expr>)
        ensures
            match res {
                Some(e) => spec_fold(const_view(l), *op, const_view(r)) == Some(expr_view(e)),
                None => spec_fold(const_view(l), *op, const_view(r)) is None,
            },
    {
        match l {
            ConstValue::Int(a) => match r {
                ConstValue::Int(b) => match op {
                    BinOp::Add => {
                        let s: i64 = a as i64 + b as i64;
                        if s >= i32::MIN as i64 && s <= i32::MAX as i64 {
                            Some(Expr::IntegerLiteral(s as i32))
                        } else {
                            None
                        }
                    },
                    BinOp::Sub => {
                        let s: i64 = a as i64 - b as i64;
                        if s >= i32::MIN as i64 && s <= i32::MAX as i64 {
                            Some(Expr::IntegerLiteral(s as i32))
                        } else {
                            None
                        }
                    },
                    BinOp::GreaterThan => Some(Expr::BooleanLiteral(a > b)),
                    BinOp::LessThan => Some(Expr::BooleanLiteral(a < b)),
                },
                _ => None,
            },
            ConstValue::String(a) => match r {
                ConstValue::String(b) => match op {
                    BinOp::Add => {
                        let mut s2 = a;
                        s2.append(b.as_str());
                        Some(Expr::StringLiteral(s2))
                    },
                    _ => None,
                },
                _ => None,
            },
            ConstValue::Bool(_) => None,
        }
    }

    /// Rewrites one expression bottom-up.
    fn optimize_expr(&mut self, expr: &Expr) -> (r: Expr)
        ensures
            final(self).tbl() == spec_optimize_expr(old(self).tbl(), expr_view(*expr)).0,
            expr_view(r) == spec_optimize_expr(old(self).tbl(), expr_view(*expr)).1,
            final(self).used() == old(self).used(),
        decreases *expr, 1int,
    {
        match expr {
            Expr::Identifier(name) => {
                match self.tbl_get(name.as_str()) {
                    Some(ConstValue::Int(n)) => Expr::IntegerLiteral(n),
                    Some(ConstValue::String(s)) => Expr::StringLiteral(s),
                    Some(ConstValue::Bool(b)) => Expr::BooleanLiteral(b),
                    None => Expr::Identifier(name.clone()),
                }
            },
            Expr::Binary { .. } => self.optimize_binary(expr),
            Expr::Assign { name, value } => {
                let v = self.optimize_expr(value);
                self.remove_constant(name.as_str());
                Expr::Assign { name: name.clone(), value: Box::new(v) }
            },
            _ => clone_expr(expr),
        }
    }

    /// Rewrites a binary expression: both operands, then folding or an
    /// identity.
    fn optimize_binary(&mut self, expr: &Expr) -> (r: Expr)
        requires
            expr is Binary,
        ensures
            final(self).tbl() == spec_optimize_expr(old(self).tbl(), expr_view(*expr)).0,
            expr_view(r) == spec_optimize_expr(old(self).tbl(), expr_view(*expr)).1,
            final(self).used() == old(self).used(),
        decreases *expr, 0int,
    {
        match expr {
            Expr::Binary { left, op, right } => {
                let l = self.optimize_expr(left);
                let r = self.optimize_expr(right);
                let lc = self.eval_const(&l);
                let rc = self.eval_const(&r);
                if lc.is_some() && rc.is_some() {
                    let folded = self.fold(
                        match lc {
                            Some(c) => c,
                            None => vstd::pervasive::unreached(),
                        },
                        op,
                        match rc {
                            Some(c) => c,
                            None => vstd::pervasive::unreached(),
                        },
                    );
                    if let Some(e) = folded {
                        return e;
                    }
                }
                if *op == BinOp::Add && is_zero_literal(&l) {
                    r
                } else if *op == BinOp::Add && is_zero_literal(&r) {
                    l
                } else if *op == BinOp::Sub && is_zero_literal(&r) {
                    l
                } else {
                    Expr::Binary { left: Box::new(l), op: *op, right: Box::new(r) }
                }
            },
            _ => vstd::pervasive::unreached(),
        }
    }

    /// Rewrites one statement into zero or more statements.
    fn optimize_stmt(&mut self, stmt: &Stmt) -> (r: Vec<Stmt>)
        ensures
            final(self).tbl() == spec_optimize_stmt(old(self).tbl(), stmt_view(*stmt)).0,
            stmts_view(r@) == spec_optimize_stmt(old(self).tbl(), stmt_view(*stmt)).1,
            final(self).used() == old(self).used(),
        decreases *stmt, 1int,
    {
        match stmt {
            Stmt::VarDeclaration { name, value } => {
                let v = self.optimize_expr(value);
                match self.eval_const(&v) {
                    Some(c) => {
                        let ghost prev = self.tbl();
                        self.constants.push((name.clone(), c));
                        proof {
                            assert(self.tbl() =~= prev.push(
                                (name@, spec_eval_const(expr_view(v))->0),
                            ));
                        }
                    },
                    None => {
                        self.remove_constant(name.as_str());
                    },
                }
                let mut out: Vec<Stmt> = Vec::new();
                out.push(Stmt::VarDeclaration { name: name.clone(), value: v });
                proof {
                    assert(stmts_view(out@) =~= seq![stmt_view(out@[0])]);
                }
                out
            },
            Stmt::Print(e) => {
                let e2 = self.optimize_expr(e);
                let mut out: Vec<Stmt> = Vec::new();
                out.push(Stmt::Print(e2));
                proof {
                    assert(stmts_view(out@) =~= seq![stmt_view(out@[0])]);
                }
                out
            },
            Stmt::Block(ss) => {
                let inner = self.optimize_stmts(ss);
                let mut out: Vec<Stmt> = Vec::new();
                out.push(Stmt::Block(inner));
                proof {
                    assert(stmts_view(out@) =~= seq![stmt_view(out@[0])]);
                }
                out
            },
            Stmt::If { .. } => self.optimize_if(stmt),
            Stmt::ExprStmt(e) => {
                let e2 = self.optimize_expr(e);
                let mut out: Vec<Stmt> = Vec::new();
                out.push(Stmt::ExprStmt(e2));
                proof {
                    assert(stmts_view(out@) =~= seq![stmt_view(out@[0])]);
                }
                out
            },
            Stmt::Paywall(n) => {
                let mut out: Vec<Stmt> = Vec::new();
                out.push(Stmt::Paywall(*n));
                proof {
                    assert(stmts_view(out@) =~= seq![stmt_view(out@[0])]);
                }
                out
            },
        }
    }

    /// Rewrites a conditional: a condition known at compile time selects its
    /// branch outright; a false condition with no else deletes the statement.
    fn optimize_if(&mut self, stmt: &Stmt) -> (r: Vec<Stmt>)
        requires
            stmt is If,
        ensures
            final(self).tbl() == spec_optimize_stmt(old(self).tbl(), stmt_view(*stmt)).0,
            stmts_view(r@) == spec_optimize_stmt(old(self).tbl(), stmt_view(*stmt)).1,
            final(self).used() == old(self).used(),
        decreases *stmt, 0int,
    {
        match stmt {
            Stmt::If { condition, then_block, else_block } => {
                let cond = self.optimize_expr(condition);
                match self.eval_const(&cond) {
                    Some(ConstValue::Bool(b)) => {
                        if b {
                            self.optimize_stmts(then_block)
                        } else {
                            match else_block {
                                Some(ss) => self.optimize_stmts(ss),
                                None => {
                                    let out: Vec<Stmt> = Vec::new();
                                    proof {
                                        assert(stmts_view(out@) =~= Seq::<SpecStmt>::empty());
                                    }
                                    out
                                },
                            }
                        }
                    },
                    _ => {
                        let then2 = self.optimize_stmts(then_block);
                        match else_block {
                            Some(ss) => {
                                let else2 = self.optimize_stmts(ss);
                                let mut out: Vec<Stmt> = Vec::new();
                                out.push(
                                    Stmt::If {
                                        condition: cond,
                                        then_block: then2,
                                        else_block: Some(else2),
                                    },
                                );
                                proof {
                                    assert(stmts_view(out@) =~= seq![stmt_view(out@[0])]);
                                }
                                out
                            },
                            None => {
                                let mut out: Vec<Stmt> = Vec::new();
                                out.push(
                                    Stmt::If {
                                        condition: cond,
                                        then_block: then2,
                                        else_block: None,
                                    },
                                );
                                proof {
                                    assert(stmts_view(out@) =~= seq![stmt_view(out@[0])]);
                                }
                                out
                            },
                        }
                    },
                }
            },
            _ => vstd::pervasive::unreached(),
        }
    }

    /// Rewrites a statement list in order, concatenating the results.
    fn optimize_stmts(&mut self, stmts: &Vec<Stmt>) -> (r: Vec<Stmt>)
        ensures
            final(self).tbl() == spec_optimize_stmts(old(self).tbl(), stmts_view(stmts@)).0,
            stmts_view(r@) == spec_optimize_stmts(old(self).tbl(), stmts_view(stmts@)).1,
            final(self).used() == old(self).used(),
        decreases stmts@, stmts@.len() + 2,
    {
        let ghost ss = stmts_view(stmts@);
        let ghost target = spec_optimize_stmts_from(old(self).tbl(), ss, 0);
        let mut out: Vec<Stmt> = Vec::new();
        let mut i: usize = 0;
        proof {
            assert(stmts_view(out@) =~= Seq::<SpecStmt>::empty());
            assert(stmts_view(out@) + target.1 =~= target.1);
        }
        while i < stmts.len()
            invariant
                0 <= i <= stmts@.len(),
                ss == stmts_view(stmts@),
                target == spec_optimize_stmts_from(old(self).tbl(), ss, 0),
                spec_optimize_stmts_from(self.tbl(), ss, i as int).0 == target.0,
                stmts_view(out@) + spec_optimize_stmts_from(self.tbl(), ss, i as int).1
                    == target.1,
                self.used() == old(self).used(),
            decreases stmts@.len() - i,
        {
            let ghost pre_out = stmts_view(out@);
            let ghost pre_tbl = self.tbl();
            proof {
                assert(ss[i as int] == stmt_view(stmts@[i as int]));
            }
            let mut piece = self.optimize_stmt(&stmts[i]);
            let ghost piece_v = stmts_view(piece@);
            out.append(&mut piece);
            proof {
                assert(stmts_view(out@) =~= pre_out + piece_v);
                let rest = spec_optimize_stmts_from(self.tbl(), ss, i + 1);
                assert((pre_out + piece_v) + rest.1 =~= pre_out + (piece_v + rest.1));
            }
            i += 1;
        }
        proof {
            assert(spec_optimize_stmts_from(self.tbl(), ss, ss.len() as int).1
                =~= Seq::<SpecStmt>::empty());
            assert(stmts_view(out@) + Seq::<SpecStmt>::empty() =~= stmts_view(out@));
        }
        out
    }

    /// Collects the names an expression references.
    fn collect_expr(&mut self, expr: &Expr)
        ensures
            final(self).used() == spec_collect_expr(old(self).used(), expr_view(*expr)),
            final(self).tbl() == old(self).tbl(),
        decreases *expr,
    {
        match expr {
            Expr::Identifier(name) => {
                self.record_used(name);
            },
            Expr::Binary { left, op, right } => {
                self.collect_expr(left);
                self.collect_expr(right);
            },
            Expr::Assign { name, value } => {
                self.record_used(name);
                self.collect_expr(value);
            },
            _ => {},
        }
    }

    /// Collects the names a statement references.
    fn collect_stmt(&mut self, stmt: &Stmt)
        ensures
            final(self).used() == spec_collect_stmt(old(self).used(), stmt_view(*stmt)),
            final(self).tbl() == old(self).tbl(),
        decreases *stmt, 1int,
    {
        match stmt {
            Stmt::VarDeclaration { name, value } => {
                self.collect_expr(value);
            },
            Stmt::Print(e) => {
                self.collect_expr(e);
            },
            Stmt::If { condition, then_block, else_block } => {
                self.collect_expr(condition);
                self.collect_used_vars(then_block);
                if let Some(ss) = else_block {
                    self.collect_used_vars(ss);
                }
            },
            Stmt::Block(ss) => {
                self.collect_used_vars(ss);
            },
            Stmt::ExprStmt(e) => {
                self.collect_expr(e);
            },
            Stmt::Paywall(_) => {},
        }
    }

    /// Collects the referenced names of a whole statement list.
    fn collect_used_vars(&mut self, stmts: &Vec<Stmt>)
        ensures
            final(self).used() == spec_collect_stmts(old(self).used(), stmts_view(stmts@)),
            final(self).tbl() == old(self).tbl(),
        decreases stmts@, stmts@.len() + 2,
    {
        let ghost ss = stmts_view(stmts@);
        let ghost target = spec_collect_stmts_from(old(self).used(), ss, 0);
        let mut i: usize = 0;
        while i < stmts.len()
            invariant
                0 <= i <= stmts@.len(),
                ss == stmts_view(stmts@),
                target == spec_collect_stmts_from(old(self).used(), ss, 0),
                spec_collect_stmts_from(self.used(), ss, i as int) == target,
                self.tbl() == old(self).tbl(),
            decreases stmts@.len() - i,
        {
            proof {
                assert(ss[i as int] == stmt_view(stmts@[i as int]));
            }
            self.collect_stmt(&stmts[i]);
            i += 1;
        }
    }

    /// Deletes declarations of names that were never referenced, everywhere
    /// in the tree.
    fn dead_code_elimination(&self, stmts: &Vec<Stmt>) -> (r: Vec<Stmt>)
        ensures
            stmts_view(r@) == spec_dce_stmts(self.used(), stmts_view(stmts@)),
        decreases stmts@,
    {
        let ghost ss = stmts_view(stmts@);
        let ghost target = spec_dce_stmts_from(self.used(), ss, 0);
        let mut out: Vec<Stmt> = Vec::new();
        let mut i: usize = 0;
        proof {
            assert(stmts_view(out@) =~= Seq::<SpecStmt>::empty());
            assert(stmts_view(out@) + target =~= target);
        }
        while i < stmts.len()
            invariant
                0 <= i <= stmts@.len(),
                ss == stmts_view(stmts@),
                target == spec_dce_stmts_from(self.used(), ss, 0),
                stmts_view(out@) + spec_dce_stmts_from(self.used(), ss, i as int) == target,
            decreases stmts@.len() - i,
        {
            let ghost pre_out = stmts_view(out@);
            let ghost rest = spec_dce_stmts_from(self.used(), ss, i + 1);
            proof {
                assert(ss[i as int] == stmt_view(stmts@[i as int]));
            }
            match &stmts[i] {
                Stmt::VarDeclaration { name, value } => {
                    if self.used_contains(name.as_str()) {
                        out.push(clone_stmt(&stmts[i]));
                        proof {
                            assert(stmts_view(out@) =~= pre_out.push(ss[i as int]));
                            assert((pre_out + (seq![ss[i as int]] + rest)) =~= (pre_out.push(
                                ss[i as int],
                            ) + rest));
                        }
                    }
                },
                Stmt::Block(b) => {
                    let cleaned = self.dead_code_elimination(b);
                    out.push(Stmt::Block(cleaned));
                    proof {
                        assert(stmts_view(out@) =~= pre_out.push(stmt_view(out@.last())));
                        assert((pre_out + (seq![stmt_view(out@.last())] + rest)) =~= (pre_out.push(
                            stmt_view(out@.last()),
                        ) + rest));
                    }
                },
                Stmt::If { condition, then_block, else_block } => {
                    let then2 = self.dead_code_elimination(then_block);
                    let else2 = match else_block {
                        Some(e) => Some(self.dead_code_elimination(e)),
                        None => None,
                    };
                    out.push(
                        Stmt::If {
                            condition: clone_expr(condition),
                            then_block: then2,
                            else_block: else2,
                        },
                    );
                    proof {
                        assert(stmts_view(out@) =~= pre_out.push(stmt_view(out@.last())));
                        assert((pre_out + (seq![stmt_view(out@.last())] + rest)) =~= (pre_out.push(
                            stmt_view(out@.last()),
                        ) + rest));
                    }
                },
                _ => {
                    out.push(clone_stmt(&stmts[i]));
                    proof {
                        assert(stmts_view(out@) =~= pre_out.push(ss[i as int]));
                        assert((pre_out + (seq![ss[i as int]] + rest)) =~= (pre_out.push(
                            ss[i as int],
                        ) + rest));
                    }
                },
            }
            i += 1;
        }
        proof {
            assert(spec_dce_stmts_from(self.used(), ss, ss.len() as int)
                =~= Seq::<SpecStmt>::empty());
            assert(stmts_view(out@) + Seq::<SpecStmt>::empty() =~= stmts_view(out@));
        }
        out
    }

    /// Optimizes a program: passes repeat until a pass changes nothing, at
    /// most ten times; if the bound is reached the current best rewrite is
    /// returned as it stands.
    pub fn optimize(&mut self, stmts: Vec<Stmt>) -> (r: Vec<Stmt>)
        ensures
            stmts_view(r@) == spec_optimize(stmts_view(stmts@)),
    {
        let ghost target = spec_optimize(stmts_view(stmts@));
        let mut current = stmts;
        let mut iter: usize = 0;
        while iter < 10
            invariant
                0 <= iter <= 10,
                target == spec_optimize(stmts_view(stmts@)),
                spec_opt_iter(stmts_view(current@), (10 - iter) as nat) == target,
            decreases 10 - iter,
        {
            self.constants = Vec::new();
            self.used_vars = Vec::new();
            proof {
                assert(self.tbl() =~= Seq::<(Seq<char>, SpecConstValue)>::empty());
                assert(self.used() =~= Seq::<Seq<char>>::empty());
            }
            self.collect_used_vars(&current);
            let optimized = self.optimize_stmts(&current);
            let cleaned = self.dead_code_elimination(&optimized);
            proof {
                assert(stmts_view(cleaned@) == spec_opt_pass(stmts_view(current@)));
            }
            if stmts_eq(&cleaned, &current) {
                proof {
                    assert(spec_opt_pass(stmts_view(current@)) == stmts_view(current@));
                    assert(spec_opt_iter(stmts_view(current@), (10 - iter) as nat)
                        == stmts_view(current@));
                    assert(stmts_view(current@) == target);
                }
                return current;
            }
            current = cleaned;
            iter += 1;
        }
        current
    }
}

} // verus!
