//! The abstract syntax tree shared by every stage of the pipeline, together
//! with its mathematical model: each executable node maps to a ghost node in
//! which `String` payloads become `Seq<char>`, so contracts can speak of the
//! tree's contents directly.

use vstd::prelude::*;
use crate::text::str_eq;

verus! {

/// A binary operator of the toy language.
#[derive(Debug, Clone, Copy, PartialEq, Eq, Structural)]
pub enum BinOp {
    Add,
    Sub,
    GreaterThan,
    LessThan,
}

/// An expression node. Each node exclusively owns its children.
#[derive(Debug, PartialEq)]
pub enum Expr {
    IntegerLiteral(i32),
    StringLiteral(String),
    BooleanLiteral(bool),
    Identifier(String),
    Assign { name: String, value: Box<Expr> },
    Binary { left: Box<Expr>, op: BinOp, right: Box<Expr> },
    /// The zero-argument nondeterministic boolean expression.
    Maybe,
}

/// A statement node.
#[derive(Debug, PartialEq)]
pub enum Stmt {
    VarDeclaration { name: String, value: Expr },
    Print(Expr),
    If { condition: Expr, then_block: Vec<Stmt>, else_block: Option<Vec<Stmt>> },
    Block(Vec<Stmt>),
    ExprStmt(Expr),
    /// The runtime-gated guard statement, carrying its integer parameter.
    Paywall(i64),
}

/// The ghost counterpart of `Expr`: string payloads are character sequences.
pub enum SpecExpr {
    IntegerLiteral(i32),
    StringLiteral(Seq<char>),
    BooleanLiteral(bool),
    Identifier(Seq<char>),
    Assign { name: Seq<char>, value: Box<SpecExpr> },
    Binary { left: Box<SpecExpr>, op: BinOp, right: Box<SpecExpr> },
    Maybe,
}

/// The ghost counterpart of `Stmt`.
pub enum SpecStmt {
    VarDeclaration { name: Seq<char>, value: SpecExpr },
    Print(SpecExpr),
    If { condition: SpecExpr, then_block: Seq<SpecStmt>, else_block: Option<Seq<SpecStmt>> },
    Block(Seq<SpecStmt>),
    ExprStmt(SpecExpr),
    Paywall(i64),
}

/// The model of an expression.
pub open spec fn expr_view(e: Expr) -> SpecExpr
    decreases e,
{
    match e {
        Expr::IntegerLiteral(n) => SpecExpr::IntegerLiteral(n),
        Expr::StringLiteral(s) => SpecExpr::StringLiteral(s@),
        Expr::BooleanLiteral(b) => SpecExpr::BooleanLiteral(b),
        Expr::Identifier(name) => SpecExpr::Identifier(name@),
        Expr::Assign { name, value } => SpecExpr::Assign {
            name: name@,
            value: Box::new(expr_view(*value)),
        },
        Expr::Binary { left, op, right } => SpecExpr::Binary {
            left: Box::new(expr_view(*left)),
            op,
            right: Box::new(expr_view(*right)),
        },
        Expr::Maybe => SpecExpr::Maybe,
    }
}

/// The model of a statement.
pub open spec fn stmt_view(s: Stmt) -> SpecStmt
    decreases s,
{
    match s {
        Stmt::VarDeclaration { name, value } => SpecStmt::VarDeclaration {
            name: name@,
            value: expr_view(value),
        },
        Stmt::Print(e) => SpecStmt::Print(expr_view(e)),
        Stmt::If { condition, then_block, else_block } => SpecStmt::If {
            condition: expr_view(condition),
            then_block: stmts_view(then_block@),
            else_block: match else_block {
                Some(b) => Some(stmts_view(b@)),
                None => None,
            },
        },
        Stmt::Block(stmts) => SpecStmt::Block(stmts_view(stmts@)),
        Stmt::ExprStmt(e) => SpecStmt::ExprStmt(expr_view(e)),
        Stmt::Paywall(n) => SpecStmt::Paywall(n),
    }
}

/// The model of a statement list: each element viewed in place.
pub open spec fn stmts_view(stmts: Seq<Stmt>) -> Seq<SpecStmt>
    decreases stmts,
{
    Seq::new(
        stmts.len(),
        |i: int| if 0 <= i < stmts.len() {
            stmt_view(stmts[i])
        } else {
            SpecStmt::Paywall(0)
        },
    )
}

/// A deep copy of an expression.
pub fn clone_expr(e: &Expr) -> (r: Expr)
    ensures
        expr_view(r) == expr_view(*e),
    decreases *e,
{
    match e {
        Expr::IntegerLiteral(n) => Expr::IntegerLiteral(*n),
        Expr::StringLiteral(s) => Expr::StringLiteral(s.clone()),
        Expr::BooleanLiteral(b) => Expr::BooleanLiteral(*b),
        Expr::Identifier(name) => Expr::Identifier(name.clone()),
        Expr::Assign { name, value } => Expr::Assign {
            name: name.clone(),
            value: Box::new(clone_expr(value)),
        },
        Expr::Binary { left, op, right } => Expr::Binary {
            left: Box::new(clone_expr(left)),
            op: *op,
            right: Box::new(clone_expr(right)),
        },
        Expr::Maybe => Expr::Maybe,
    }
}

/// A deep copy of a statement.
pub fn clone_stmt(s: &Stmt) -> (r: Stmt)
    ensures
        stmt_view(r) == stmt_view(*s),
    decreases *s, 0int,
{
    match s {
        Stmt::VarDeclaration { name, value } => Stmt::VarDeclaration {
            name: name.clone(),
            value: clone_expr(value),
        },
        Stmt::Print(e) => Stmt::Print(clone_expr(e)),
        Stmt::If { condition, then_block, else_block } => Stmt::If {
            condition: clone_expr(condition),
            then_block: clone_stmts(then_block),
            else_block: match else_block {
                Some(b) => Some(clone_stmts(b)),
                None => None,
            },
        },
        Stmt::Block(stmts) => Stmt::Block(clone_stmts(stmts)),
        Stmt::ExprStmt(e) => Stmt::ExprStmt(clone_expr(e)),
        Stmt::Paywall(n) => Stmt::Paywall(*n),
    }
}

/// A deep copy of a statement list.
pub fn clone_stmts(stmts: &Vec<Stmt>) -> (r: Vec<Stmt>)
    ensures
        stmts_view(r@) == stmts_view(stmts@),
    decreases stmts@, 1int,
{
    let mut out: Vec<Stmt> = Vec::new();
    let mut i: usize = 0;
    proof {
        assert(stmts_view(out@) =~= stmts_view(stmts@).take(0));
    }
    while i < stmts.len()
        invariant
            0 <= i <= stmts@.len(),
            stmts_view(out@) == stmts_view(stmts@).take(i as int),
        decreases stmts@.len() - i,
    {
        let c = clone_stmt(&stmts[i]);
        proof {
            assert(stmt_view(c) == stmt_view(stmts@[i as int]));
        }
        let ghost prev = out@;
        proof {
            assert(stmts_view(prev).len() == prev.len());
            assert(stmts_view(prev) == stmts_view(stmts@).take(i as int));
            assert(stmts_view(stmts@).take(i as int).len() == i);
        }
        out.push(c);
        proof {
            assert(out@ == prev.push(c));
            assert(prev.len() == i);
            assert(out@.len() == i + 1);
            assert(stmt_view(out@[i as int]) == stmts_view(stmts@)[i as int]);
            assert forall|j: int| 0 <= j < i implies stmts_view(out@)[j] == stmts_view(
                stmts@,
            )[j] by {
                assert(out@[j] == prev[j]);
                assert(stmts_view(out@)[j] == stmt_view(out@[j]));
                assert(stmts_view(prev)[j] == stmt_view(prev[j]));
                assert(stmts_view(prev)[j] == stmts_view(stmts@).take(i as int)[j]);
            }
            assert(stmts_view(out@) =~= stmts_view(stmts@).take(i + 1));
        }
        i += 1;
    }
    proof {
        assert(stmts_view(stmts@).take(stmts@.len() as int) =~= stmts_view(stmts@));
    }
    out
}

/// Whether two expressions are structurally equal.
pub fn expr_eq(a: &Expr, b: &Expr) -> (r: bool)
    ensures
        r == (expr_view(*a) == expr_view(*b)),
    decreases *a,
{
    match a {
        Expr::IntegerLiteral(x) => match b {
            Expr::IntegerLiteral(y) => *x == *y,
            _ => false,
        },
        Expr::StringLiteral(x) => match b {
            Expr::StringLiteral(y) => str_eq(x.as_str(), y.as_str()),
            _ => false,
        },
        Expr::BooleanLiteral(x) => match b {
            Expr::BooleanLiteral(y) => *x == *y,
            _ => false,
        },
        Expr::Identifier(x) => match b {
            Expr::Identifier(y) => str_eq(x.as_str(), y.as_str()),
            _ => false,
        },
        Expr::Assign { name: na, value: va } => match b {
            Expr::Assign { name: nb, value: vb } => str_eq(na.as_str(), nb.as_str()) && expr_eq(
                va,
                vb,
            ),
            _ => false,
        },
        Expr::Binary { left: la, op: oa, right: ra } => match b {
            Expr::Binary { left: lb, op: ob, right: rb } => *oa == *ob && expr_eq(la, lb)
                && expr_eq(ra, rb),
            _ => false,
        },
        Expr::Maybe => matches!(b, Expr::Maybe),
    }
}

/// Whether two statements are structurally equal.
pub fn stmt_eq(a: &Stmt, b: &Stmt) -> (r: bool)
    ensures
        r == (stmt_view(*a) == stmt_view(*b)),
    decreases *a, 0int,
{
    match a {
        Stmt::VarDeclaration { name: na, value: va } => match b {
            Stmt::VarDeclaration { name: nb, value: vb } => str_eq(na.as_str(), nb.as_str())
                && expr_eq(va, vb),
            _ => false,
        },
        Stmt::Print(ea) => match b {
            Stmt::Print(eb) => expr_eq(ea, eb),
            _ => false,
        },
        Stmt::If { condition: ca, then_block: ta, else_block: ea } => match b {
            Stmt::If { condition: cb, then_block: tb, else_block: eb } => {
                let cond_ok = expr_eq(ca, cb);
                let then_ok = cond_ok && stmts_eq(ta, tb);
                if then_ok {
                    match (ea, eb) {
                        (Some(x), Some(y)) => stmts_eq(x, y),
                        (None, None) => true,
                        _ => false,
                    }
                } else {
                    false
                }
            },
            _ => false,
        },
        Stmt::Block(sa) => match b {
            Stmt::Block(sb) => stmts_eq(sa, sb),
            _ => false,
        },
        Stmt::ExprStmt(ea) => match b {
            Stmt::ExprStmt(eb) => expr_eq(ea, eb),
            _ => false,
        },
        Stmt::Paywall(x) => match b {
            Stmt::Paywall(y) => *x == *y,
            _ => false,
        },
    }
}

/// Whether two statement lists are structurally equal.
pub fn stmts_eq(a: &Vec<Stmt>, b: &Vec<Stmt>) -> (r: bool)
    ensures
        r == (stmts_view(a@) == stmts_view(b@)),
    decreases a@, 1int,
{
    if a.len() != b.len() {
        proof {
            assert(stmts_view(a@).len() != stmts_view(b@).len());
        }
        return false;
    }
    let mut i: usize = 0;
    while i < a.len()
        invariant
            0 <= i <= a@.len(),
            a@.len() == b@.len(),
            forall|j: int| 0 <= j < i ==> stmts_view(a@)[j] == stmts_view(b@)[j],
        decreases a@.len() - i,
    {
        if !stmt_eq(&a[i], &b[i]) {
            proof {
                assert(stmts_view(a@)[i as int] != stmts_view(b@)[i as int]);
            }
            return false;
        }
        i += 1;
    }
    proof {
        assert(stmts_view(a@) =~= stmts_view(b@));
    }
    true
}

} // verus!
