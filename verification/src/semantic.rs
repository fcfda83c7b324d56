//! Scope-aware semantic checking. The analyzer walks the tree with a stack
//! of scopes, each a table from variable name to static type; it records
//! every diagnostic and keeps going, failing the overall call only if the
//! list is non-empty at the end. The `Unknown` type suppresses follow-on
//! errors once a subexpression has already been reported.
//!
//! The whole analysis is stated once as specification functions over a ghost
//! analyzer state; the executable analyzer is proved to produce exactly that
//! state.

use vstd::prelude::*;
use vstd::string::*;
use crate::ast::{expr_view, stmt_view, stmts_view, BinOp, Expr, SpecExpr, SpecStmt, Stmt};
use crate::text::str_eq;

verus! {

/// The static type of an expression. `Unknown` is the suppression type
/// returned after an error, so one bad expression does not cascade.
#[derive(Debug, Clone, Copy, PartialEq, Eq, Structural)]
pub enum Type {
    Int,
    String,
    Bool,
    Unknown,
}

/// A diagnostic the analyzer can record.
#[derive(Debug, Clone, PartialEq)]
pub enum SemanticError {
    UndeclaredVariable(String),
    Redeclaration(String),
    TypeMismatch { expected: Type, found: Type, context: String },
}

/// The ghost counterpart of `SemanticError`.
pub enum SpecSemanticError {
    UndeclaredVariable(Seq<char>),
    Redeclaration(Seq<char>),
    TypeMismatch { expected: Type, found: Type, context: Seq<char> },
}

/// The model of a diagnostic.
pub open spec fn sem_error_view(e: SemanticError) -> SpecSemanticError {
    match e {
        SemanticError::UndeclaredVariable(s) => SpecSemanticError::UndeclaredVariable(s@),
        SemanticError::Redeclaration(s) => SpecSemanticError::Redeclaration(s@),
        SemanticError::TypeMismatch { expected, found, context } => SpecSemanticError::TypeMismatch {
            expected,
            found,
            context: context@,
        },
    }
}

fn clone_sem_error(e: &SemanticError) -> (r: SemanticError)
    ensures
        sem_error_view(r) == sem_error_view(*e),
{
    match e {
        SemanticError::UndeclaredVariable(s) => SemanticError::UndeclaredVariable(s.clone()),
        SemanticError::Redeclaration(s) => SemanticError::Redeclaration(s.clone()),
        SemanticError::TypeMismatch { expected, found, context } => SemanticError::TypeMismatch {
            expected: *expected,
            found: *found,
            context: context.clone(),
        },
    }
}

/// The model of a diagnostic list.
pub open spec fn sem_errors_view(es: Seq<SemanticError>) -> Seq<SpecSemanticError> {
    Seq::new(es.len(), |i: int| sem_error_view(es[i]))
}

/// One scope: bindings from name to type, newest last.
pub open spec fn pairs_view(s: Seq<(String, Type)>) -> Seq<(Seq<char>, Type)> {
    Seq::new(s.len(), |i: int| (s[i].0@, s[i].1))
}

/// The analyzer's ghost state: the scope stack and the diagnostics so far.
#[verifier::ext_equal]
pub struct SpecSemState {
    pub scopes: Seq<Seq<(Seq<char>, Type)>>,
    pub errors: Seq<SpecSemanticError>,
}

/// Looks a name up in one scope, newest binding first.
pub open spec fn scope_lookup(scope: Seq<(Seq<char>, Type)>, name: Seq<char>) -> Option<Type>
    decreases scope.len(),
{
    if scope.len() == 0 {
        None
    } else if scope.last().0 == name {
        Some(scope.last().1)
    } else {
        scope_lookup(scope.drop_last(), name)
    }
}

/// Looks a name up through the scope stack, innermost scope first.
pub open spec fn scopes_lookup(scopes: Seq<Seq<(Seq<char>, Type)>>, name: Seq<char>) -> Option<
    Type,
>
    decreases scopes.len(),
{
    if scopes.len() == 0 {
        None
    } else {
        match scope_lookup(scopes.last(), name) {
            Some(t) => Some(t),
            None => scopes_lookup(scopes.drop_last(), name),
        }
    }
}

/// Appends one diagnostic.
pub open spec fn spec_error(st: SpecSemState, e: SpecSemanticError) -> SpecSemState {
    SpecSemState { scopes: st.scopes, errors: st.errors.push(e) }
}

/// Checks an expression: the new state and the expression's type.
pub open spec fn spec_check_expr(st: SpecSemState, e: SpecExpr) -> (SpecSemState, Type)
    decreases e,
{
    match e {
        SpecExpr::IntegerLiteral(_) => (st, Type::Int),
        SpecExpr::StringLiteral(_) => (st, Type::String),
        SpecExpr::BooleanLiteral(_) => (st, Type::Bool),
        SpecExpr::Maybe => (st, Type::Bool),
        SpecExpr::Identifier(name) => match scopes_lookup(st.scopes, name) {
            Some(t) => (st, t),
            None => (spec_error(st, SpecSemanticError::UndeclaredVariable(name)), Type::Unknown),
        },
        SpecExpr::Assign { name, value } => {
            let (st1, var_type) = match scopes_lookup(st.scopes, name) {
                Some(t) => (st, t),
                None => (
                    spec_error(st, SpecSemanticError::UndeclaredVariable(name)),
                    Type::Unknown,
                ),
            };
            let (st2, value_type) = spec_check_expr(st1, *value);
            if var_type != Type::Unknown && value_type != Type::Unknown && var_type != value_type {
                (
                    spec_error(
                        st2,
                        SpecSemanticError::TypeMismatch {
                            expected: var_type,
                            found: value_type,
                            context: "cannot assign to '"@ + name + "'"@,
                        },
                    ),
                    var_type,
                )
            } else {
                (st2, var_type)
            }
        },
        SpecExpr::Binary { left, op, right } => {
            let (st1, lt) = spec_check_expr(st, *left);
            let (st2, rt) = spec_check_expr(st1, *right);
            spec_binary_result(st2, lt, op, rt)
        },
    }
}

/// The outcome of a binary operation given its operand types: `+` takes two
/// ints or two strings; `-`, `>` and `<` take ints; comparisons yield `Bool`.
pub open spec fn spec_binary_result(st: SpecSemState, lt: Type, op: BinOp, rt: Type) -> (
    SpecSemState,
    Type,
) {
    match op {
        BinOp::Add => {
            if lt == Type::Int && rt == Type::Int {
                (st, Type::Int)
            } else if lt == Type::String && rt == Type::String {
                (st, Type::String)
            } else {
                (
                    spec_error(
                        st,
                        SpecSemanticError::TypeMismatch {
                            expected: lt,
                            found: rt,
                            context: "invalid '+' operands"@,
                        },
                    ),
                    Type::Unknown,
                )
            }
        },
        BinOp::Sub => {
            if lt == Type::Int && rt == Type::Int {
                (st, Type::Int)
            } else {
                (
                    spec_error(
                        st,
                        SpecSemanticError::TypeMismatch {
                            expected: Type::Int,
                            found: if lt != Type::Int {
                                lt
                            } else {
                                rt
                            },
                            context: "subtraction requires Int"@,
                        },
                    ),
                    Type::Unknown,
                )
            }
        },
        BinOp::GreaterThan | BinOp::LessThan => {
            if lt == Type::Int && rt == Type::Int {
                (st, Type::Bool)
            } else {
                (
                    spec_error(
                        st,
                        SpecSemanticError::TypeMismatch {
                            expected: Type::Int,
                            found: if lt != Type::Int {
                                lt
                            } else {
                                rt
                            },
                            context: "comparison requires Int"@,
                        },
                    ),
                    Type::Unknown,
                )
            }
        },
    }
}

/// Checks a binary expression: both operands, then the operator rule.
pub open spec fn spec_check_binary(st: SpecSemState, e: SpecExpr) -> (SpecSemState, Type) {
    match e {
        SpecExpr::Binary { left, op, right } => {
            let (st1, lt) = spec_check_expr(st, *left);
            let (st2, rt) = spec_check_expr(st1, *right);
            spec_binary_result(st2, lt, op, rt)
        },
        _ => (st, Type::Unknown),
    }
}

/// Checks a variable declaration: a redeclaration in the same scope is
/// reported and nothing else happens; otherwise the initializer must type
/// as `Int` (or `Unknown`), and the name is bound either way.
pub open spec fn spec_check_var_decl(st: SpecSemState, name: Seq<char>, value: SpecExpr) -> SpecSemState {
    if st.scopes.len() == 0 {
        st
    } else if scope_lookup(st.scopes.last(), name) is Some {
        spec_error(st, SpecSemanticError::Redeclaration(name))
    } else {
        let (st1, value_type) = spec_check_expr(st, value);
        let st2 = if value_type != Type::Int && value_type != Type::Unknown {
            spec_error(
                st1,
                SpecSemanticError::TypeMismatch {
                    expected: Type::Int,
                    found: value_type,
                    context: "initializer for '"@ + name + "' must be Int"@,
                },
            )
        } else {
            st1
        };
        SpecSemState {
            scopes: st2.scopes.update(
                st2.scopes.len() - 1,
                st2.scopes.last().push((name, Type::Int)),
            ),
            errors: st2.errors,
        }
    }
}

/// Pushes a fresh scope.
pub open spec fn spec_enter_scope(st: SpecSemState) -> SpecSemState {
    SpecSemState { scopes: st.scopes.push(Seq::empty()), errors: st.errors }
}

/// Discards the innermost scope.
pub open spec fn spec_exit_scope(st: SpecSemState) -> SpecSemState {
    SpecSemState { scopes: st.scopes.drop_last(), errors: st.errors }
}

/// Checks one statement.
pub open spec fn spec_check_stmt(st: SpecSemState, s: SpecStmt) -> SpecSemState
    decreases s, 0int,
{
    match s {
        SpecStmt::Block(ss) => spec_exit_scope(spec_check_stmts(spec_enter_scope(st), ss)),
        SpecStmt::VarDeclaration { name, value } => spec_check_var_decl(st, name, value),
        SpecStmt::Print(e) => spec_check_expr(st, e).0,
        SpecStmt::If { condition, then_block, else_block } => {
            let (st1, cond_type) = spec_check_expr(st, condition);
            let st2 = if cond_type != Type::Bool && cond_type != Type::Unknown {
                spec_error(
                    st1,
                    SpecSemanticError::TypeMismatch {
                        expected: Type::Bool,
                        found: cond_type,
                        context: "if condition must be boolean"@,
                    },
                )
            } else {
                st1
            };
            let st3 = spec_exit_scope(spec_check_stmts(spec_enter_scope(st2), then_block));
            match else_block {
                Some(ss) => spec_exit_scope(spec_check_stmts(spec_enter_scope(st3), ss)),
                None => st3,
            }
        },
        SpecStmt::ExprStmt(e) => spec_check_expr(st, e).0,
        SpecStmt::Paywall(_) => st,
    }
}

/// Checks the statements of `ss` from index `i` on.
pub open spec fn spec_check_stmts_from(st: SpecSemState, ss: Seq<SpecStmt>, i: int) -> SpecSemState
    decreases ss, ss.len() - i,
{
    if 0 <= i < ss.len() {
        spec_check_stmts_from(spec_check_stmt(st, ss[i]), ss, i + 1)
    } else {
        st
    }
}

/// Checks a statement list in order.
pub open spec fn spec_check_stmts(st: SpecSemState, ss: Seq<SpecStmt>) -> SpecSemState
    decreases ss, ss.len() + 1,
{
    spec_check_stmts_from(st, ss, 0)
}

/// The state a fresh analyzer starts from: one empty global scope, no
/// diagnostics.
pub open spec fn spec_initial_state() -> SpecSemState {
    SpecSemState { scopes: seq![Seq::empty()], errors: Seq::empty() }
}


/// Checking an expression never touches the scope stack.
pub proof fn lemma_expr_scopes(st: SpecSemState, e: SpecExpr)
    ensures
        spec_check_expr(st, e).0.scopes == st.scopes,
    decreases e,
{
    match e {
        SpecExpr::Assign { name, value } => {
            let st1 = if scopes_lookup(st.scopes, name) is Some {
                st
            } else {
                spec_error(st, SpecSemanticError::UndeclaredVariable(name))
            };
            lemma_expr_scopes(st1, *value);
        },
        SpecExpr::Binary { left, op, right } => {
            lemma_expr_scopes(st, *left);
            let (st1, _) = spec_check_expr(st, *left);
            lemma_expr_scopes(st1, *right);
        },
        _ => {},
    }
}

/// Checking a statement keeps the depth of the scope stack, and every scope
/// but the innermost, unchanged.
pub proof fn lemma_stmt_scopes(st: SpecSemState, s: SpecStmt)
    ensures
        spec_check_stmt(st, s).scopes.len() == st.scopes.len(),
        forall|k: int|
            0 <= k < st.scopes.len() - 1 ==> spec_check_stmt(st, s).scopes[k] == st.scopes[k],
    decreases s, 1int,
{
    match s {
        SpecStmt::Block(ss) => {
            lemma_stmts_from_scopes(spec_enter_scope(st), ss, 0);
            let inner = spec_check_stmts(spec_enter_scope(st), ss);
            assert forall|k: int| 0 <= k < st.scopes.len() - 1 implies spec_check_stmt(
                st,
                s,
            ).scopes[k] == st.scopes[k] by {
                assert(inner.scopes[k] == spec_enter_scope(st).scopes[k]);
            }
        },
        SpecStmt::VarDeclaration { name, value } => {
            if st.scopes.len() == 0 {
            } else if scope_lookup(st.scopes.last(), name) is Some {
            } else {
                lemma_expr_scopes(st, value);
            }
        },
        SpecStmt::Print(e) => {
            lemma_expr_scopes(st, e);
        },
        SpecStmt::ExprStmt(e) => {
            lemma_expr_scopes(st, e);
        },
        SpecStmt::If { condition, then_block, else_block } => {
            lemma_expr_scopes(st, condition);
            let (st1, cond_type) = spec_check_expr(st, condition);
            let st2 = if cond_type != Type::Bool && cond_type != Type::Unknown {
                spec_error(
                    st1,
                    SpecSemanticError::TypeMismatch {
                        expected: Type::Bool,
                        found: cond_type,
                        context: "if condition must be boolean"@,
                    },
                )
            } else {
                st1
            };
            let then_inner = spec_check_stmts(spec_enter_scope(st2), then_block);
            lemma_stmts_from_scopes(spec_enter_scope(st2), then_block, 0);
            let st3 = spec_exit_scope(then_inner);
            match else_block {
                Some(ss) => {
                    let else_inner = spec_check_stmts(spec_enter_scope(st3), ss);
                    lemma_stmts_from_scopes(spec_enter_scope(st3), ss, 0);
                    assert forall|k: int| 0 <= k < st.scopes.len() - 1 implies spec_check_stmt(
                        st,
                        s,
                    ).scopes[k] == st.scopes[k] by {
                        assert(then_inner.scopes[k] == spec_enter_scope(st2).scopes[k]);
                        assert(st3.scopes[k] == st.scopes[k]);
                        assert(else_inner.scopes[k] == spec_enter_scope(st3).scopes[k]);
                    }
                },
                None => {
                    assert forall|k: int| 0 <= k < st.scopes.len() - 1 implies spec_check_stmt(
                        st,
                        s,
                    ).scopes[k] == st.scopes[k] by {
                        assert(then_inner.scopes[k] == spec_enter_scope(st2).scopes[k]);
                    }
                },
            }
        },
        SpecStmt::Paywall(_) => {},
    }
}

proof fn lemma_stmts_from_scopes(st: SpecSemState, ss: Seq<SpecStmt>, i: int)
    ensures
        spec_check_stmts_from(st, ss, i).scopes.len() == st.scopes.len(),
        forall|k: int|
            0 <= k < st.scopes.len() - 1 ==> spec_check_stmts_from(st, ss, i).scopes[k]
                == st.scopes[k],
    decreases ss, ss.len() - i,
{
    if 0 <= i < ss.len() {
        lemma_stmt_scopes(st, ss[i]);
        lemma_stmts_from_scopes(spec_check_stmt(st, ss[i]), ss, i + 1);
    }
}

/// A block's scope is destroyed when the block finishes checking: checking
/// a block statement leaves the scope stack exactly as it was before, so a
/// name declared inside the block is not visible after it.
pub proof fn lemma_block_scope_discarded(st: SpecSemState, ss: Seq<SpecStmt>)
    ensures
        spec_check_stmt(st, SpecStmt::Block(ss)).scopes == st.scopes,
{
    lemma_stmts_from_scopes(spec_enter_scope(st), ss, 0);
    let inner = spec_check_stmts(spec_enter_scope(st), ss);
    assert forall|k: int| 0 <= k < st.scopes.len() implies spec_check_stmt(
        st,
        SpecStmt::Block(ss),
    ).scopes[k] == st.scopes[k] by {
        assert(inner.scopes[k] == spec_enter_scope(st).scopes[k]);
    }
    assert(spec_check_stmt(st, SpecStmt::Block(ss)).scopes =~= st.scopes);
}

/// The branch scopes of a conditional are likewise discarded: checking an
/// `if` statement leaves the scope stack exactly as it was before, so a
/// name declared inside either branch is not visible after the statement.
pub proof fn lemma_if_scopes_discarded(
    st: SpecSemState,
    condition: SpecExpr,
    then_block: Seq<SpecStmt>,
    else_block: Option<Seq<SpecStmt>>,
)
    ensures
        spec_check_stmt(
            st,
            SpecStmt::If { condition, then_block, else_block },
        ).scopes == st.scopes,
{
    let s = SpecStmt::If { condition, then_block, else_block };
    lemma_expr_scopes(st, condition);
    let (st1, cond_type) = spec_check_expr(st, condition);
    let st2 = if cond_type != Type::Bool && cond_type != Type::Unknown {
        spec_error(
            st1,
            SpecSemanticError::TypeMismatch {
                expected: Type::Bool,
                found: cond_type,
                context: "if condition must be boolean"@,
            },
        )
    } else {
        st1
    };
    let then_inner = spec_check_stmts(spec_enter_scope(st2), then_block);
    lemma_stmts_from_scopes(spec_enter_scope(st2), then_block, 0);
    let st3 = spec_exit_scope(then_inner);
    assert forall|k: int| 0 <= k < st.scopes.len() implies st3.scopes[k] == st.scopes[k] by {
        assert(then_inner.scopes[k] == spec_enter_scope(st2).scopes[k]);
    }
    assert(st3.scopes =~= st.scopes);
    match else_block {
        Some(ss) => {
            let else_inner = spec_check_stmts(spec_enter_scope(st3), ss);
            lemma_stmts_from_scopes(spec_enter_scope(st3), ss, 0);
            assert forall|k: int|
                0 <= k < st.scopes.len() implies spec_check_stmt(st, s).scopes[k]
                == st.scopes[k] by {
                assert(else_inner.scopes[k] == spec_enter_scope(st3).scopes[k]);
            }
            assert(spec_check_stmt(st, s).scopes =~= st.scopes);
        },
        None => {},
    }
}

/// The scope-aware semantic analyzer.
pub struct SemanticAnalyzer {
    scopes: Vec<Vec<(String, Type)>>,
    errors: Vec<SemanticError>,
}

impl SemanticAnalyzer {
    /// The analyzer's ghost state.
    pub closed spec fn st(&self) -> SpecSemState {
        SpecSemState {
            scopes: Seq::new(self.scopes@.len(), |i: int| pairs_view(self.scopes@[i]@)),
            errors: sem_errors_view(self.errors@),
        }
    }

    /// There is always a current scope to declare into.
    pub closed spec fn wf(&self) -> bool {
        self.scopes@.len() >= 1
    }

    pub fn new() -> (a: SemanticAnalyzer)
        ensures
            a.st() == spec_initial_state(),
            a.wf(),
    {
        let mut scopes: Vec<Vec<(String, Type)>> = Vec::new();
        scopes.push(Vec::new());
        let a = SemanticAnalyzer { scopes, errors: Vec::new() };
        proof {
            assert(a.st() =~~= spec_initial_state());
        }
        a
    }

    fn enter_scope(&mut self)
        ensures
            final(self).st() == spec_enter_scope(old(self).st()),
            final(self).wf(),
    {
        self.scopes.push(Vec::new());
        proof {
            assert(final(self).st() =~~= spec_enter_scope(old(self).st()));
        }
    }

    fn exit_scope(&mut self)
        requires
            old(self).wf(),
        ensures
            final(self).st() == spec_exit_scope(old(self).st()),
    {
        self.scopes.pop();
        proof {
            assert(final(self).st() =~~= spec_exit_scope(old(self).st()));
        }
    }

    fn error(&mut self, err: SemanticError)
        ensures
            final(self).st() == spec_error(old(self).st(), sem_error_view(err)),
            final(self).wf() == old(self).wf(),
    {
        self.errors.push(err);
        proof {
            assert(final(self).st() =~~= spec_error(old(self).st(), sem_error_view(err)));
        }
    }

    /// Looks a name up in one scope.
    fn scope_get(scope: &Vec<(String, Type)>, name: &str) -> (r: Option<Type>)
        ensures
            r == scope_lookup(pairs_view(scope@), name@),
    {
        let mut j: usize = scope.len();
        proof {
            assert(pairs_view(scope@).take(scope@.len() as int) =~= pairs_view(scope@));
        }
        while j > 0
            invariant
                0 <= j <= scope@.len(),
                scope_lookup(pairs_view(scope@), name@) == scope_lookup(
                    pairs_view(scope@).take(j as int),
                    name@,
                ),
            decreases j,
        {
            if str_eq(scope[j - 1].0.as_str(), name) {
                proof {
                    assert(pairs_view(scope@).take(j as int).last() == (scope@[j - 1].0@, scope@[j
                        - 1].1));
                }
                return Some(scope[j - 1].1);
            }
            proof {
                assert(pairs_view(scope@).take(j as int).drop_last() =~= pairs_view(scope@).take(
                    j - 1,
                ));
            }
            j -= 1;
        }
        proof {
            assert(pairs_view(scope@).take(0) =~= Seq::<(Seq<char>, Type)>::empty());
        }
        None
    }

    /// Looks a name up through the scope stack, innermost scope first.
    fn lookup(&self, name: &str) -> (r: Option<Type>)
        ensures
            r == scopes_lookup(self.st().scopes, name@),
    {
        let mut i: usize = self.scopes.len();
        proof {
            assert(self.st().scopes.take(self.scopes@.len() as int) =~= self.st().scopes);
        }
        while i > 0
            invariant
                0 <= i <= self.scopes@.len(),
                scopes_lookup(self.st().scopes, name@) == scopes_lookup(
                    self.st().scopes.take(i as int),
                    name@,
                ),
            decreases i,
        {
            let r = Self::scope_get(&self.scopes[i - 1], name);
            proof {
                assert(self.st().scopes.take(i as int).last() == pairs_view(self.scopes@[i
                    - 1]@));
                assert(self.st().scopes.take(i as int).drop_last() =~= self.st().scopes.take(
                    i - 1,
                ));
            }
            if let Some(t) = r {
                return Some(t);
            }
            i -= 1;
        }
        proof {
            assert(self.st().scopes.take(0) =~= Seq::<Seq<(Seq<char>, Type)>>::empty());
        }
        None
    }

    /// Checks an expression and infers its type.
    fn check_expr(&mut self, expr: &Expr) -> (t: Type)
        ensures
            final(self).st() == spec_check_expr(old(self).st(), expr_view(*expr)).0,
            t == spec_check_expr(old(self).st(), expr_view(*expr)).1,
            final(self).wf() == old(self).wf(),
        decreases *expr, 1int,
    {
        proof {
            lemma_expr_scopes(old(self).st(), expr_view(*expr));
        }
        match expr {
            Expr::IntegerLiteral(_) => Type::Int,
            Expr::StringLiteral(_) => Type::String,
            Expr::BooleanLiteral(_) => Type::Bool,
            Expr::Maybe => Type::Bool,
            Expr::Identifier(name) => {
                match self.lookup(name.as_str()) {
                    Some(t) => t,
                    None => {
                        self.error(SemanticError::UndeclaredVariable(name.clone()));
                        Type::Unknown
                    },
                }
            },
            Expr::Assign { name, value } => {
                let var_type = match self.lookup(name.as_str()) {
                    Some(t) => t,
                    None => {
                        self.error(SemanticError::UndeclaredVariable(name.clone()));
                        Type::Unknown
                    },
                };
                let value_type = self.check_expr(value);
                if var_type != Type::Unknown && value_type != Type::Unknown && var_type
                    != value_type {
                    let mut context = String::from_str("cannot assign to '");
                    context.append(name.as_str());
                    context.append("'");
                    self.error(
                        SemanticError::TypeMismatch { expected: var_type, found: value_type, context },
                    );
                }
                var_type
            },
            Expr::Binary { .. } => self.check_binary(expr),
        }
    }

    /// Checks a binary expression and applies the operator's typing rule.
    fn check_binary(&mut self, expr: &Expr) -> (t: Type)
        requires
            expr is Binary,
        ensures
            final(self).st() == spec_check_binary(old(self).st(), expr_view(*expr)).0,
            t == spec_check_binary(old(self).st(), expr_view(*expr)).1,
            final(self).wf() == old(self).wf(),
        decreases *expr, 0int,
    {
        proof {
            let ev = expr_view(*expr);
            if ev is Binary {
                lemma_expr_scopes(old(self).st(), ev);
            }
        }
        match expr {
            Expr::Binary { left, op, right } => {
                let lt = self.check_expr(left);
                let rt = self.check_expr(right);
                match op {
                    BinOp::Add => {
                        if lt == Type::Int && rt == Type::Int {
                            Type::Int
                        } else if lt == Type::String && rt == Type::String {
                            Type::String
                        } else {
                            self.error(
                                SemanticError::TypeMismatch {
                                    expected: lt,
                                    found: rt,
                                    context: String::from_str("invalid '+' operands"),
                                },
                            );
                            Type::Unknown
                        }
                    },
                    BinOp::Sub => {
                        if lt == Type::Int && rt == Type::Int {
                            Type::Int
                        } else {
                            self.error(
                                SemanticError::TypeMismatch {
                                    expected: Type::Int,
                                    found: if lt != Type::Int {
                                        lt
                                    } else {
                                        rt
                                    },
                                    context: String::from_str("subtraction requires Int"),
                                },
                            );
                            Type::Unknown
                        }
                    },
                    BinOp::GreaterThan | BinOp::LessThan => {
                        if lt == Type::Int && rt == Type::Int {
                            Type::Bool
                        } else {
                            self.error(
                                SemanticError::TypeMismatch {
                                    expected: Type::Int,
                                    found: if lt != Type::Int {
                                        lt
                                    } else {
                                        rt
                                    },
                                    context: String::from_str("comparison requires Int"),
                                },
                            );
                            Type::Unknown
                        }
                    },
                }
            },
            _ => vstd::pervasive::unreached(),
        }
    }

    /// Checks a variable declaration.
    fn check_var_decl(&mut self, name: &String, value: &Expr)
        requires
            old(self).wf(),
        ensures
            final(self).st() == spec_check_var_decl(old(self).st(), name@, expr_view(*value)),
            final(self).wf(),
    {
        let top: usize = self.scopes.len() - 1;
        let already = Self::scope_get(&self.scopes[top], name.as_str());
        proof {
            assert(old(self).st().scopes.last() == pairs_view(self.scopes@[top as int]@));
        }
        if already.is_some() {
            self.error(SemanticError::Redeclaration(name.clone()));
            return;
        }
        let value_type = self.check_expr(value);
        if value_type != Type::Int && value_type != Type::Unknown {
            let mut context = String::from_str("initializer for '");
            context.append(name.as_str());
            context.append("' must be Int");
            self.error(
                SemanticError::TypeMismatch { expected: Type::Int, found: value_type, context },
            );
        }
        let ghost st2 = self.st();
        let mut top_scope = match self.scopes.pop() {
            Some(s) => s,
            None => vstd::pervasive::unreached(),
        };
        top_scope.push((name.clone(), Type::Int));
        self.scopes.push(top_scope);
        proof {
            assert(final(self).st().scopes =~~= st2.scopes.update(
                st2.scopes.len() - 1,
                st2.scopes.last().push((name@, Type::Int)),
            ));
            assert(final(self).st() =~~= spec_check_var_decl(
                old(self).st(),
                name@,
                expr_view(*value),
            ));
        }
    }

    /// Checks one statement.
    fn check_stmt(&mut self, stmt: &Stmt)
        requires
            old(self).wf(),
        ensures
            final(self).st() == spec_check_stmt(old(self).st(), stmt_view(*stmt)),
            final(self).wf(),
        decreases *stmt, 0int,
    {
        match stmt {
            Stmt::Block(stmts) => {
                self.enter_scope();
                self.check_stmts(stmts);
                self.exit_scope();
            },
            Stmt::VarDeclaration { name, value } => {
                self.check_var_decl(name, value);
            },
            Stmt::Print(expr) => {
                self.check_expr(expr);
            },
            Stmt::If { condition, then_block, else_block } => {
                let cond_type = self.check_expr(condition);
                if cond_type != Type::Bool && cond_type != Type::Unknown {
                    self.error(
                        SemanticError::TypeMismatch {
                            expected: Type::Bool,
                            found: cond_type,
                            context: String::from_str("if condition must be boolean"),
                        },
                    );
                }
                self.enter_scope();
                self.check_stmts(then_block);
                self.exit_scope();
                if let Some(stmts) = else_block {
                    self.enter_scope();
                    self.check_stmts(stmts);
                    self.exit_scope();
                }
            },
            Stmt::ExprStmt(expr) => {
                self.check_expr(expr);
            },
            Stmt::Paywall(_) => {},
        }
        proof {
            lemma_stmt_scopes(old(self).st(), stmt_view(*stmt));
        }
    }

    /// Checks a statement list in order.
    fn check_stmts(&mut self, stmts: &Vec<Stmt>)
        requires
            old(self).wf(),
        ensures
            final(self).st() == spec_check_stmts(old(self).st(), stmts_view(stmts@)),
            final(self).wf(),
        decreases stmts@, stmts@.len() + 1,
    {
        let ghost ss = stmts_view(stmts@);
        let ghost target = spec_check_stmts_from(old(self).st(), ss, 0);
        let mut i: usize = 0;
        while i < stmts.len()
            invariant
                old(self).wf(),
                self.wf(),
                0 <= i <= stmts@.len(),
                ss == stmts_view(stmts@),
                target == spec_check_stmts_from(old(self).st(), ss, 0),
                spec_check_stmts_from(self.st(), ss, i as int) == target,
            decreases stmts@.len() - i,
        {
            let s = &stmts[i];
            proof {
                assert(ss[i as int] == stmt_view(stmts@[i as int]));
            }
            self.check_stmt(s);
            i += 1;
        }
        proof {
            assert(spec_check_stmts_from(self.st(), ss, stmts@.len() as int) == self.st());
        }
    }

    /// Checks a whole program: every diagnostic is recorded, and the call
    /// fails exactly when at least one was.
    pub fn analyze(&mut self, stmts: &Vec<Stmt>) -> (r: Result<(), Vec<SemanticError>>)
        requires
            old(self).wf(),
        ensures
            final(self).st() == spec_check_stmts(old(self).st(), stmts_view(stmts@)),
            final(self).wf(),
            r is Ok <==> spec_check_stmts(old(self).st(), stmts_view(stmts@)).errors.len() == 0,
            (r matches Err(es) ==> sem_errors_view(es@) == spec_check_stmts(
                old(self).st(),
                stmts_view(stmts@),
            ).errors),
    {
        self.check_stmts(stmts);
        if self.errors.len() == 0 {
            proof {
                assert(self.st().errors.len() == self.errors@.len());
            }
            Ok(())
        } else {
            let mut es: Vec<SemanticError> = Vec::new();
            let mut i: usize = 0;
            while i < self.errors.len()
                invariant
                    0 <= i <= self.errors@.len(),
                    sem_errors_view(es@) == sem_errors_view(self.errors@).take(i as int),
                decreases self.errors@.len() - i,
            {
                let ghost prev = es@;
                es.push(clone_sem_error(&self.errors[i]));
                proof {
                    assert(sem_errors_view(es@) =~= sem_errors_view(prev).push(
                        sem_error_view(self.errors@[i as int]),
                    ));
                    assert(sem_errors_view(self.errors@).take(i + 1) =~= sem_errors_view(
                        self.errors@,
                    ).take(i as int).push(sem_errors_view(self.errors@)[i as int]));
                    assert(sem_errors_view(es@) =~= sem_errors_view(self.errors@).take(i + 1));
                }
                i += 1;
            }
            proof {
                assert(sem_errors_view(self.errors@).take(self.errors@.len() as int)
                    =~= sem_errors_view(self.errors@));
            }
            Err(es)
        }
    }
}

} // verus!
