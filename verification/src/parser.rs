//! Recursive-descent parsing with one token of lookahead. The grammar,
//! lowest to highest precedence:
//!
//! ```text
//! program    := stmt*
//! stmt       := printStmt | ifStmt | varDecl | block | guardStmt
//! block      := '{' stmt* '}'
//! varDecl    := 'int' IDENT '=' expr ';'
//! printStmt  := 'print' '(' expr ')' ';'
//! ifStmt     := 'if' '(' expr ')' block ('else' block)?
//! guardStmt  := 'paywall' '(' INT ')' ';'
//! expr       := comparison
//! comparison := addition (('>' | '<') addition)*
//! addition   := primary (('+' | '-') primary)*
//! primary    := INT | STRING | IDENT | 'maybe' | '(' expr ')'
//! ```
//!
//! Parsing stops at the first failure with the single error kind
//! `UnexpectedToken`; the statements of a program are wrapped in one outer
//! block so the whole program shares a single root scope.
//!
//! The grammar is stated once as specification functions over token
//! sequences; the executable parser is proved to return exactly what they
//! describe.

use vstd::prelude::*;
use crate::ast::{stmts_view, stmt_view, expr_view, BinOp, Expr, SpecExpr, SpecStmt, Stmt};
use crate::token::{token_view, tokens_view, SpecToken, Token};
use crate::text::str_eq;

verus! {

/// The one way parsing fails: a token did not match the expected grammar
/// production.
#[derive(Debug, Clone, Copy, PartialEq, Eq, Structural)]
pub enum ParseError {
    UnexpectedToken,
}

/// Tokens remaining at a cursor; the termination measure of the grammar.
pub open spec fn rem(toks: Seq<SpecToken>, pos: int) -> int {
    if pos <= toks.len() {
        toks.len() - pos
    } else {
        0
    }
}

/// Integer literals clamp to the 32-bit expression range.
pub open spec fn clamp_i32(n: i64) -> i32 {
    if n > i32::MAX as i64 {
        i32::MAX
    } else if n < i32::MIN as i64 {
        i32::MIN
    } else {
        n as i32
    }
}

/// primary := INT | STRING | IDENT | 'maybe' | '(' expr ')'
pub open spec fn spec_parse_primary(toks: Seq<SpecToken>, pos: int) -> Option<(SpecExpr, int)>
    decreases rem(toks, pos), 0int,
{
    if 0 <= pos < toks.len() {
        match toks[pos] {
            SpecToken::IntegerLiteral(n) => Some((SpecExpr::IntegerLiteral(clamp_i32(n)), pos + 1)),
            SpecToken::StringLiteral(s) => Some((SpecExpr::StringLiteral(s), pos + 1)),
            SpecToken::Identifier(id) => Some((SpecExpr::Identifier(id), pos + 1)),
            SpecToken::Maybe => Some((SpecExpr::Maybe, pos + 1)),
            SpecToken::LeftParen => match spec_parse_expr(toks, pos + 1) {
                Some((e, p2)) => if 0 <= p2 < toks.len() && toks[p2] == SpecToken::RightParen {
                    Some((e, p2 + 1))
                } else {
                    None
                },
                None => None,
            },
            _ => None,
        }
    } else {
        None
    }
}

/// The left-associative tail of an addition chain.
pub open spec fn spec_addition_tail(toks: Seq<SpecToken>, pos: int, left: SpecExpr) -> Option<
    (SpecExpr, int),
>
    decreases rem(toks, pos), 0int,
{
    if 0 <= pos < toks.len() && (toks[pos] == SpecToken::Plus || toks[pos] == SpecToken::Minus) {
        let op = if toks[pos] == SpecToken::Plus {
            BinOp::Add
        } else {
            BinOp::Sub
        };
        match spec_parse_primary(toks, pos + 1) {
            Some((right, p2)) => if p2 > pos {
                spec_addition_tail(
                    toks,
                    p2,
                    SpecExpr::Binary { left: Box::new(left), op, right: Box::new(right) },
                )
            } else {
                None
            },
            None => None,
        }
    } else {
        Some((left, pos))
    }
}

/// addition := primary (('+' | '-') primary)*
pub open spec fn spec_parse_addition(toks: Seq<SpecToken>, pos: int) -> Option<(SpecExpr, int)>
    decreases rem(toks, pos), 1int,
{
    match spec_parse_primary(toks, pos) {
        Some((left, p1)) => if p1 >= pos {
            spec_addition_tail(toks, p1, left)
        } else {
            None
        },
        None => None,
    }
}

/// The left-associative tail of a comparison chain.
pub open spec fn spec_comparison_tail(toks: Seq<SpecToken>, pos: int, left: SpecExpr) -> Option<
    (SpecExpr, int),
>
    decreases rem(toks, pos), 2int,
{
    if 0 <= pos < toks.len() && (toks[pos] == SpecToken::GreaterThan || toks[pos]
        == SpecToken::LessThan) {
        let op = if toks[pos] == SpecToken::GreaterThan {
            BinOp::GreaterThan
        } else {
            BinOp::LessThan
        };
        match spec_parse_addition(toks, pos + 1) {
            Some((right, p2)) => if p2 > pos {
                spec_comparison_tail(
                    toks,
                    p2,
                    SpecExpr::Binary { left: Box::new(left), op, right: Box::new(right) },
                )
            } else {
                None
            },
            None => None,
        }
    } else {
        Some((left, pos))
    }
}

/// comparison := addition (('>' | '<') addition)*
pub open spec fn spec_parse_comparison(toks: Seq<SpecToken>, pos: int) -> Option<(SpecExpr, int)>
    decreases rem(toks, pos), 3int,
{
    match spec_parse_addition(toks, pos) {
        Some((left, p1)) => if p1 >= pos {
            spec_comparison_tail(toks, p1, left)
        } else {
            None
        },
        None => None,
    }
}

/// expr := comparison
pub open spec fn spec_parse_expr(toks: Seq<SpecToken>, pos: int) -> Option<(SpecExpr, int)>
    decreases rem(toks, pos), 4int,
{
    spec_parse_comparison(toks, pos)
}

/// printStmt := 'print' '(' expr ')' ';'
pub open spec fn spec_parse_print(toks: Seq<SpecToken>, pos: int) -> Option<(SpecStmt, int)>
    decreases rem(toks, pos), 7int,
{
    if 0 <= pos < toks.len() && toks[pos] == SpecToken::Print {
        if pos + 1 < toks.len() && toks[pos + 1] == SpecToken::LeftParen {
            match spec_parse_expr(toks, pos + 2) {
                Some((e, p2)) => if p2 < toks.len() && toks[p2] == SpecToken::RightParen && p2 + 1
                    < toks.len() && toks[p2 + 1] == SpecToken::SemiColon {
                    Some((SpecStmt::Print(e), p2 + 2))
                } else {
                    None
                },
                None => None,
            }
        } else {
            None
        }
    } else {
        None
    }
}

/// varDecl := 'int' IDENT '=' expr ';'
pub open spec fn spec_parse_var_decl(toks: Seq<SpecToken>, pos: int) -> Option<(SpecStmt, int)>
    decreases rem(toks, pos), 7int,
{
    if 0 <= pos < toks.len() && toks[pos] == SpecToken::Int {
        if pos + 1 < toks.len() {
            match toks[pos + 1] {
                SpecToken::Identifier(name) => if pos + 2 < toks.len() && toks[pos + 2]
                    == SpecToken::Assign {
                    match spec_parse_expr(toks, pos + 3) {
                        Some((e, p2)) => if p2 < toks.len() && toks[p2] == SpecToken::SemiColon {
                            Some((SpecStmt::VarDeclaration { name, value: e }, p2 + 1))
                        } else {
                            None
                        },
                        None => None,
                    }
                } else {
                    None
                },
                _ => None,
            }
        } else {
            None
        }
    } else {
        None
    }
}

/// guardStmt := 'paywall' '(' INT ')' ';'
pub open spec fn spec_parse_paywall(toks: Seq<SpecToken>, pos: int) -> Option<(SpecStmt, int)>
    decreases rem(toks, pos), 7int,
{
    if 0 <= pos < toks.len() && toks[pos] == SpecToken::Paywall {
        if pos + 1 < toks.len() && toks[pos + 1] == SpecToken::LeftParen && pos + 2 < toks.len() {
            match toks[pos + 2] {
                SpecToken::IntegerLiteral(n) => if pos + 3 < toks.len() && toks[pos + 3]
                    == SpecToken::RightParen && pos + 4 < toks.len() && toks[pos + 4]
                    == SpecToken::SemiColon {
                    Some((SpecStmt::Paywall(n), pos + 5))
                } else {
                    None
                },
                _ => None,
            }
        } else {
            None
        }
    } else {
        None
    }
}

/// The statements of a block body, up to the closing brace or the end of the
/// tokens.
pub open spec fn spec_parse_block_stmts(toks: Seq<SpecToken>, pos: int) -> Option<
    (Seq<SpecStmt>, int),
>
    decreases rem(toks, pos), 9int,
{
    if !(0 <= pos < toks.len()) {
        Some((Seq::empty(), pos))
    } else if toks[pos] == SpecToken::RightBrace {
        Some((Seq::empty(), pos))
    } else {
        match spec_parse_stmt(toks, pos) {
            Some((s, p2)) => if p2 > pos {
                match spec_parse_block_stmts(toks, p2) {
                    Some((ss, p3)) => Some((seq![s] + ss, p3)),
                    None => None,
                }
            } else {
                None
            },
            None => None,
        }
    }
}

/// block := '{' stmt* '}'
pub open spec fn spec_parse_block(toks: Seq<SpecToken>, pos: int) -> Option<(SpecStmt, int)>
    decreases rem(toks, pos), 7int,
{
    if 0 <= pos < toks.len() && toks[pos] == SpecToken::LeftBrace {
        match spec_parse_block_stmts(toks, pos + 1) {
            Some((ss, p2)) => if 0 <= p2 < toks.len() && toks[p2] == SpecToken::RightBrace {
                Some((SpecStmt::Block(ss), p2 + 1))
            } else {
                None
            },
            None => None,
        }
    } else {
        None
    }
}

/// ifStmt := 'if' '(' expr ')' block ('else' block)?
pub open spec fn spec_parse_if(toks: Seq<SpecToken>, pos: int) -> Option<(SpecStmt, int)>
    decreases rem(toks, pos), 7int,
{
    if 0 <= pos < toks.len() && toks[pos] == SpecToken::If {
        if pos + 1 < toks.len() && toks[pos + 1] == SpecToken::LeftParen {
            match spec_parse_expr(toks, pos + 2) {
                Some((cond, p2)) => if p2 >= pos + 2 && p2 < toks.len() && toks[p2]
                    == SpecToken::RightParen {
                    match spec_parse_block(toks, p2 + 1) {
                        Some((blk, p3)) => match blk {
                            SpecStmt::Block(then_ss) => if p3 > p2 {
                                if 0 <= p3 < toks.len() && toks[p3] == SpecToken::Else {
                                    match spec_parse_block(toks, p3 + 1) {
                                        Some((eblk, p4)) => match eblk {
                                            SpecStmt::Block(else_ss) => Some(
                                                (
                                                    SpecStmt::If {
                                                        condition: cond,
                                                        then_block: then_ss,
                                                        else_block: Some(else_ss),
                                                    },
                                                    p4,
                                                ),
                                            ),
                                            _ => None,
                                        },
                                        None => None,
                                    }
                                } else {
                                    Some(
                                        (
                                            SpecStmt::If {
                                                condition: cond,
                                                then_block: then_ss,
                                                else_block: None,
                                            },
                                            p3,
                                        ),
                                    )
                                }
                            } else {
                                None
                            },
                            _ => None,
                        },
                        None => None,
                    }
                } else {
                    None
                },
                None => None,
            }
        } else {
            None
        }
    } else {
        None
    }
}

/// stmt := printStmt | ifStmt | varDecl | block | guardStmt
pub open spec fn spec_parse_stmt(toks: Seq<SpecToken>, pos: int) -> Option<(SpecStmt, int)>
    decreases rem(toks, pos), 8int,
{
    if 0 <= pos < toks.len() {
        match toks[pos] {
            SpecToken::Print => spec_parse_print(toks, pos),
            SpecToken::If => spec_parse_if(toks, pos),
            SpecToken::Int => spec_parse_var_decl(toks, pos),
            SpecToken::LeftBrace => spec_parse_block(toks, pos),
            SpecToken::Paywall => spec_parse_paywall(toks, pos),
            _ => None,
        }
    } else {
        None
    }
}

/// program := stmt*, to the end of the tokens.
pub open spec fn spec_parse_program(toks: Seq<SpecToken>, pos: int) -> Option<(Seq<SpecStmt>, int)>
    decreases rem(toks, pos), 9int,
{
    if !(0 <= pos < toks.len()) {
        Some((Seq::empty(), pos))
    } else {
        match spec_parse_stmt(toks, pos) {
            Some((s, p2)) => if p2 > pos {
                match spec_parse_program(toks, p2) {
                    Some((ss, p3)) => Some((seq![s] + ss, p3)),
                    None => None,
                }
            } else {
                None
            },
            None => None,
        }
    }
}

/// What parsing a whole token stream yields: the program's statements,
/// wrapped in one outer block.
pub open spec fn spec_parse(toks: Seq<SpecToken>) -> Option<Seq<SpecStmt>> {
    match spec_parse_program(toks, 0) {
        Some((ss, _)) => Some(seq![SpecStmt::Block(ss)]),
        None => None,
    }
}

/// Whether two tokens are the same token with the same payload.
fn tok_eq(a: &Token, b: &Token) -> (r: bool)
    ensures
        r == (token_view(*a) == token_view(*b)),
{
    match a {
        Token::Print => match b { Token::Print => true, _ => false },
        Token::If => match b { Token::If => true, _ => false },
        Token::Else => match b { Token::Else => true, _ => false },
        Token::Int => match b { Token::Int => true, _ => false },
        Token::Maybe => match b { Token::Maybe => true, _ => false },
        Token::Paywall => match b { Token::Paywall => true, _ => false },
        Token::Identifier(x) => match b {
            Token::Identifier(y) => str_eq(x.as_str(), y.as_str()),
            _ => false,
        },
        Token::IntegerLiteral(x) => match b {
            Token::IntegerLiteral(y) => *x == *y,
            _ => false,
        },
        Token::StringLiteral(x) => match b {
            Token::StringLiteral(y) => str_eq(x.as_str(), y.as_str()),
            _ => false,
        },
        Token::Plus => match b { Token::Plus => true, _ => false },
        Token::Minus => match b { Token::Minus => true, _ => false },
        Token::Assign => match b { Token::Assign => true, _ => false },
        Token::GreaterThan => match b { Token::GreaterThan => true, _ => false },
        Token::LessThan => match b { Token::LessThan => true, _ => false },
        Token::SemiColon => match b { Token::SemiColon => true, _ => false },
        Token::LeftParen => match b { Token::LeftParen => true, _ => false },
        Token::RightParen => match b { Token::RightParen => true, _ => false },
        Token::LeftBrace => match b { Token::LeftBrace => true, _ => false },
        Token::RightBrace => match b { Token::RightBrace => true, _ => false },
    }
}

fn clamp_i32_exec(n: i64) -> (r: i32)
    ensures
        r == clamp_i32(n),
{
    if n > i32::MAX as i64 {
        i32::MAX
    } else if n < i32::MIN as i64 {
        i32::MIN
    } else {
        n as i32
    }
}

/// Takes the statements out of a block statement.
fn unwrap_block(stmt: Stmt) -> (r: Vec<Stmt>)
    requires
        stmt is Block,
    ensures
        stmt_view(stmt) == SpecStmt::Block(stmts_view(r@)),
{
    match stmt {
        Stmt::Block(v) => v,
        _ => vstd::pervasive::unreached(),
    }
}

/// The parser: a token stream and a position cursor, moved only forward.
pub struct Parser {
    tokens: Vec<Token>,
    pos: usize,
}

impl Parser {
    /// The tokens being parsed.
    pub closed spec fn toks(&self) -> Seq<SpecToken> {
        tokens_view(self.tokens@)
    }

    /// The cursor position.
    pub closed spec fn cursor(&self) -> int {
        self.pos as int
    }

    pub fn new(tokens: Vec<Token>) -> (p: Parser)
        ensures
            p.toks() == tokens_view(tokens@),
            p.cursor() == 0,
    {
        Parser { tokens, pos: 0 }
    }

    /// Consumes the current token when it equals `expected`.
    fn expect(&mut self, expected: Token) -> (r: Result<(), ParseError>)
        ensures
            final(self).toks() == old(self).toks(),
            match r {
                Ok(_) => old(self).cursor() < old(self).toks().len() && old(self).toks()[old(self).cursor()] == token_view(expected) && final(self).cursor() == old(self).cursor() + 1,
                Err(_) => !(old(self).cursor() < old(self).toks().len() && old(self).toks()[old(self).cursor()] == token_view(expected)) && final(self).cursor() == old(self).cursor(),
            },
    {
        if self.pos < self.tokens.len() && tok_eq(&self.tokens[self.pos], &expected) {
            self.pos += 1;
            Ok(())
        } else {
            Err(ParseError::UnexpectedToken)
        }
    }

    // ----------------- expressions -----------------

    fn parse_primary(&mut self) -> (r: Result<Expr, ParseError>)
        ensures
            final(self).toks() == old(self).toks(),
            match r {
                Ok(e) => spec_parse_primary(old(self).toks(), old(self).cursor()) == Some(
                    (expr_view(e), final(self).cursor()),
                ) && old(self).cursor() < final(self).cursor(),
                Err(_) => spec_parse_primary(old(self).toks(), old(self).cursor()) is None,
            },
        decreases rem(self.toks(), self.cursor()), 0int,
    {
        if self.pos >= self.tokens.len() {
            return Err(ParseError::UnexpectedToken);
        }
        match &self.tokens[self.pos] {
            Token::IntegerLiteral(n) => {
                let v: i64 = *n;
                self.pos += 1;
                Ok(Expr::IntegerLiteral(clamp_i32_exec(v)))
            },
            Token::StringLiteral(s) => {
                let v = s.clone();
                self.pos += 1;
                Ok(Expr::StringLiteral(v))
            },
            Token::Identifier(id) => {
                let v = id.clone();
                self.pos += 1;
                Ok(Expr::Identifier(v))
            },
            Token::Maybe => {
                self.pos += 1;
                Ok(Expr::Maybe)
            },
            Token::LeftParen => {
                self.pos += 1;
                let e = match self.parse_expr() {
                    Ok(e) => e,
                    Err(err) => {
                        return Err(err);
                    },
                };
                match self.expect(Token::RightParen) {
                    Ok(_) => Ok(e),
                    Err(err) => Err(err),
                }
            },
            _ => Err(ParseError::UnexpectedToken),
        }
    }

    fn parse_addition_tail(&mut self, left: Expr) -> (r: Result<Expr, ParseError>)
        ensures
            final(self).toks() == old(self).toks(),
            match r {
                Ok(e) => spec_addition_tail(old(self).toks(), old(self).cursor(), expr_view(left))
                    == Some((expr_view(e), final(self).cursor())) && old(self).cursor() <= final(self).cursor(),
                Err(_) => spec_addition_tail(
                    old(self).toks(),
                    old(self).cursor(),
                    expr_view(left),
                ) is None,
            },
        decreases rem(self.toks(), self.cursor()), 0int,
    {
        if self.pos >= self.tokens.len() {
            return Ok(left);
        }
        let op = match &self.tokens[self.pos] {
            Token::Plus => Some(BinOp::Add),
            Token::Minus => Some(BinOp::Sub),
            _ => None,
        };
        match op {
            Some(op) => {
                self.pos += 1;
                match self.parse_primary() {
                    Ok(right) => self.parse_addition_tail(
                        Expr::Binary { left: Box::new(left), op, right: Box::new(right) },
                    ),
                    Err(err) => Err(err),
                }
            },
            None => Ok(left),
        }
    }

    fn parse_addition(&mut self) -> (r: Result<Expr, ParseError>)
        ensures
            final(self).toks() == old(self).toks(),
            match r {
                Ok(e) => spec_parse_addition(old(self).toks(), old(self).cursor()) == Some(
                    (expr_view(e), final(self).cursor()),
                ) && old(self).cursor() < final(self).cursor(),
                Err(_) => spec_parse_addition(old(self).toks(), old(self).cursor()) is None,
            },
        decreases rem(self.toks(), self.cursor()), 1int,
    {
        match self.parse_primary() {
            Ok(left) => self.parse_addition_tail(left),
            Err(err) => Err(err),
        }
    }

    fn parse_comparison_tail(&mut self, left: Expr) -> (r: Result<Expr, ParseError>)
        ensures
            final(self).toks() == old(self).toks(),
            match r {
                Ok(e) => spec_comparison_tail(
                    old(self).toks(),
                    old(self).cursor(),
                    expr_view(left),
                ) == Some((expr_view(e), final(self).cursor())) && old(self).cursor() <= final(self).cursor(),
                Err(_) => spec_comparison_tail(
                    old(self).toks(),
                    old(self).cursor(),
                    expr_view(left),
                ) is None,
            },
        decreases rem(self.toks(), self.cursor()), 2int,
    {
        if self.pos >= self.tokens.len() {
            return Ok(left);
        }
        let op = match &self.tokens[self.pos] {
            Token::GreaterThan => Some(BinOp::GreaterThan),
            Token::LessThan => Some(BinOp::LessThan),
            _ => None,
        };
        match op {
            Some(op) => {
                self.pos += 1;
                match self.parse_addition() {
                    Ok(right) => self.parse_comparison_tail(
                        Expr::Binary { left: Box::new(left), op, right: Box::new(right) },
                    ),
                    Err(err) => Err(err),
                }
            },
            None => Ok(left),
        }
    }

    fn parse_comparison(&mut self) -> (r: Result<Expr, ParseError>)
        ensures
            final(self).toks() == old(self).toks(),
            match r {
                Ok(e) => spec_parse_comparison(old(self).toks(), old(self).cursor()) == Some(
                    (expr_view(e), final(self).cursor()),
                ) && old(self).cursor() < final(self).cursor(),
                Err(_) => spec_parse_comparison(old(self).toks(), old(self).cursor()) is None,
            },
        decreases rem(self.toks(), self.cursor()), 3int,
    {
        match self.parse_addition() {
            Ok(left) => self.parse_comparison_tail(left),
            Err(err) => Err(err),
        }
    }

    fn parse_expr(&mut self) -> (r: Result<Expr, ParseError>)
        ensures
            final(self).toks() == old(self).toks(),
            match r {
                Ok(e) => spec_parse_expr(old(self).toks(), old(self).cursor()) == Some(
                    (expr_view(e), final(self).cursor()),
                ) && old(self).cursor() < final(self).cursor(),
                Err(_) => spec_parse_expr(old(self).toks(), old(self).cursor()) is None,
            },
        decreases rem(self.toks(), self.cursor()), 4int,
    {
        self.parse_comparison()
    }

    // ----------------- statements -----------------

    fn parse_print(&mut self) -> (r: Result<Stmt, ParseError>)
        requires
            old(self).cursor() < old(self).toks().len(),
            old(self).toks()[old(self).cursor()] == SpecToken::Print,
        ensures
            final(self).toks() == old(self).toks(),
            match r {
                Ok(s) => spec_parse_print(old(self).toks(), old(self).cursor()) == Some(
                    (stmt_view(s), final(self).cursor()),
                ) && old(self).cursor() < final(self).cursor(),
                Err(_) => spec_parse_print(old(self).toks(), old(self).cursor()) is None,
            },
        decreases rem(self.toks(), self.cursor()), 7int,
    {
        proof {
            vstd::std_specs::vec::axiom_spec_len(&self.tokens);
        }
        self.pos += 1;  // consume 'print'
        match self.expect(Token::LeftParen) {
            Ok(_) => {},
            Err(err) => {
                return Err(err);
            },
        }
        let e = match self.parse_expr() {
            Ok(e) => e,
            Err(err) => {
                return Err(err);
            },
        };
        match self.expect(Token::RightParen) {
            Ok(_) => {},
            Err(err) => {
                return Err(err);
            },
        }
        match self.expect(Token::SemiColon) {
            Ok(_) => {},
            Err(err) => {
                return Err(err);
            },
        }
        Ok(Stmt::Print(e))
    }

    fn parse_var_decl(&mut self) -> (r: Result<Stmt, ParseError>)
        requires
            old(self).cursor() < old(self).toks().len(),
            old(self).toks()[old(self).cursor()] == SpecToken::Int,
        ensures
            final(self).toks() == old(self).toks(),
            match r {
                Ok(s) => spec_parse_var_decl(old(self).toks(), old(self).cursor()) == Some(
                    (stmt_view(s), final(self).cursor()),
                ) && old(self).cursor() < final(self).cursor(),
                Err(_) => spec_parse_var_decl(old(self).toks(), old(self).cursor()) is None,
            },
        decreases rem(self.toks(), self.cursor()), 7int,
    {
        proof {
            vstd::std_specs::vec::axiom_spec_len(&self.tokens);
        }
        self.pos += 1;  // consume 'int'
        if self.pos >= self.tokens.len() {
            return Err(ParseError::UnexpectedToken);
        }
        let name = match &self.tokens[self.pos] {
            Token::Identifier(id) => {
                let n = id.clone();
                n
            },
            _ => {
                return Err(ParseError::UnexpectedToken);
            },
        };
        self.pos += 1;  // consume the identifier
        match self.expect(Token::Assign) {
            Ok(_) => {},
            Err(err) => {
                return Err(err);
            },
        }
        let value = match self.parse_expr() {
            Ok(e) => e,
            Err(err) => {
                return Err(err);
            },
        };
        match self.expect(Token::SemiColon) {
            Ok(_) => {},
            Err(err) => {
                return Err(err);
            },
        }
        Ok(Stmt::VarDeclaration { name, value })
    }

    fn parse_paywall(&mut self) -> (r: Result<Stmt, ParseError>)
        requires
            old(self).cursor() < old(self).toks().len(),
            old(self).toks()[old(self).cursor()] == SpecToken::Paywall,
        ensures
            final(self).toks() == old(self).toks(),
            match r {
                Ok(s) => spec_parse_paywall(old(self).toks(), old(self).cursor()) == Some(
                    (stmt_view(s), final(self).cursor()),
                ) && old(self).cursor() < final(self).cursor(),
                Err(_) => spec_parse_paywall(old(self).toks(), old(self).cursor()) is None,
            },
        decreases rem(self.toks(), self.cursor()), 7int,
    {
        proof {
            vstd::std_specs::vec::axiom_spec_len(&self.tokens);
        }
        self.pos += 1;  // consume 'paywall'
        match self.expect(Token::LeftParen) {
            Ok(_) => {},
            Err(err) => {
                return Err(err);
            },
        }
        if self.pos >= self.tokens.len() {
            return Err(ParseError::UnexpectedToken);
        }
        let amount: i64 = match &self.tokens[self.pos] {
            Token::IntegerLiteral(n) => *n,
            _ => {
                return Err(ParseError::UnexpectedToken);
            },
        };
        self.pos += 1;  // consume the number
        match self.expect(Token::RightParen) {
            Ok(_) => {},
            Err(err) => {
                return Err(err);
            },
        }
        match self.expect(Token::SemiColon) {
            Ok(_) => {},
            Err(err) => {
                return Err(err);
            },
        }
        Ok(Stmt::Paywall(amount))
    }

    fn parse_block_stmts(&mut self) -> (r: Result<Vec<Stmt>, ParseError>)
        ensures
            final(self).toks() == old(self).toks(),
            match r {
                Ok(ss) => spec_parse_block_stmts(old(self).toks(), old(self).cursor()) == Some(
                    (stmts_view(ss@), final(self).cursor()),
                ) && old(self).cursor() <= final(self).cursor(),
                Err(_) => spec_parse_block_stmts(old(self).toks(), old(self).cursor()) is None,
            },
        decreases rem(self.toks(), self.cursor()), 9int,
    {
        if self.pos >= self.tokens.len() {
            proof {
                assert(stmts_view(Seq::<Stmt>::empty()) =~= Seq::<SpecStmt>::empty());
            }
            return Ok(Vec::new());
        }
        if matches!(&self.tokens[self.pos], Token::RightBrace) {
            proof {
                assert(stmts_view(Seq::<Stmt>::empty()) =~= Seq::<SpecStmt>::empty());
            }
            return Ok(Vec::new());
        }
        let s = match self.parse_stmt() {
            Ok(s) => s,
            Err(err) => {
                return Err(err);
            },
        };
        match self.parse_block_stmts() {
            Ok(mut ss) => {
                ss.insert(0, s);
                proof {
                    assert(stmts_view(ss@) =~= seq![stmt_view(s)] + stmts_view(
                        ss@.subrange(1, ss@.len() as int),
                    ));
                    assert(ss@.subrange(1, ss@.len() as int) =~= ss@.drop_first());
                }
                Ok(ss)
            },
            Err(err) => Err(err),
        }
    }

    fn parse_block_stmt(&mut self) -> (r: Result<Stmt, ParseError>)
        ensures
            final(self).toks() == old(self).toks(),
            match r {
                Ok(s) => spec_parse_block(old(self).toks(), old(self).cursor()) == Some(
                    (stmt_view(s), final(self).cursor()),
                ) && old(self).cursor() < final(self).cursor() && s
                    is Block,
                Err(_) => spec_parse_block(old(self).toks(), old(self).cursor()) is None,
            },
        decreases rem(self.toks(), self.cursor()), 7int,
    {
        match self.expect(Token::LeftBrace) {
            Ok(_) => {},
            Err(err) => {
                return Err(err);
            },
        }
        let stmts = match self.parse_block_stmts() {
            Ok(ss) => ss,
            Err(err) => {
                return Err(err);
            },
        };
        match self.expect(Token::RightBrace) {
            Ok(_) => {},
            Err(err) => {
                return Err(err);
            },
        }
        Ok(Stmt::Block(stmts))
    }

    fn parse_if(&mut self) -> (r: Result<Stmt, ParseError>)
        requires
            old(self).cursor() < old(self).toks().len(),
            old(self).toks()[old(self).cursor()] == SpecToken::If,
        ensures
            final(self).toks() == old(self).toks(),
            match r {
                Ok(s) => spec_parse_if(old(self).toks(), old(self).cursor()) == Some(
                    (stmt_view(s), final(self).cursor()),
                ) && old(self).cursor() < final(self).cursor(),
                Err(_) => spec_parse_if(old(self).toks(), old(self).cursor()) is None,
            },
        decreases rem(self.toks(), self.cursor()), 7int,
    {
        proof {
            vstd::std_specs::vec::axiom_spec_len(&self.tokens);
        }
        self.pos += 1;  // consume 'if'
        match self.expect(Token::LeftParen) {
            Ok(_) => {},
            Err(err) => {
                return Err(err);
            },
        }
        let condition = match self.parse_expr() {
            Ok(e) => e,
            Err(err) => {
                return Err(err);
            },
        };
        match self.expect(Token::RightParen) {
            Ok(_) => {},
            Err(err) => {
                return Err(err);
            },
        }
        let then_stmt = match self.parse_block_stmt() {
            Ok(s) => s,
            Err(err) => {
                return Err(err);
            },
        };
        let has_else = self.pos < self.tokens.len() && matches!(
            &self.tokens[self.pos],
            Token::Else,
        );
        if has_else {
            self.pos += 1;  // consume 'else'
            let else_stmt = match self.parse_block_stmt() {
                Ok(s) => s,
                Err(err) => {
                    return Err(err);
                },
            };
            Ok(
                Stmt::If {
                    condition,
                    then_block: unwrap_block(then_stmt),
                    else_block: Some(unwrap_block(else_stmt)),
                },
            )
        } else {
            Ok(
                Stmt::If {
                    condition,
                    then_block: unwrap_block(then_stmt),
                    else_block: None,
                },
            )
        }
    }

    fn parse_stmt(&mut self) -> (r: Result<Stmt, ParseError>)
        ensures
            final(self).toks() == old(self).toks(),
            match r {
                Ok(s) => spec_parse_stmt(old(self).toks(), old(self).cursor()) == Some(
                    (stmt_view(s), final(self).cursor()),
                ) && old(self).cursor() < final(self).cursor(),
                Err(_) => spec_parse_stmt(old(self).toks(), old(self).cursor()) is None,
            },
        decreases rem(self.toks(), self.cursor()), 8int,
    {
        if self.pos >= self.tokens.len() {
            return Err(ParseError::UnexpectedToken);
        }
        if matches!(&self.tokens[self.pos], Token::Print) {
            self.parse_print()
        } else if matches!(&self.tokens[self.pos], Token::If) {
            self.parse_if()
        } else if matches!(&self.tokens[self.pos], Token::Int) {
            self.parse_var_decl()
        } else if matches!(&self.tokens[self.pos], Token::LeftBrace) {
            self.parse_block_stmt()
        } else if matches!(&self.tokens[self.pos], Token::Paywall) {
            self.parse_paywall()
        } else {
            Err(ParseError::UnexpectedToken)
        }
    }

    fn parse_program_rec(&mut self) -> (r: Result<Vec<Stmt>, ParseError>)
        ensures
            final(self).toks() == old(self).toks(),
            match r {
                Ok(ss) => spec_parse_program(old(self).toks(), old(self).cursor()) == Some(
                    (stmts_view(ss@), final(self).cursor()),
                ) && old(self).cursor() <= final(self).cursor(),
                Err(_) => spec_parse_program(old(self).toks(), old(self).cursor()) is None,
            },
        decreases rem(self.toks(), self.cursor()), 9int,
    {
        if self.pos >= self.tokens.len() {
            proof {
                assert(stmts_view(Seq::<Stmt>::empty()) =~= Seq::<SpecStmt>::empty());
            }
            return Ok(Vec::new());
        }
        let s = match self.parse_stmt() {
            Ok(s) => s,
            Err(err) => {
                return Err(err);
            },
        };
        match self.parse_program_rec() {
            Ok(mut ss) => {
                ss.insert(0, s);
                proof {
                    assert(ss@.subrange(1, ss@.len() as int) =~= ss@.drop_first());
                    assert(stmts_view(ss@) =~= seq![stmt_view(s)] + stmts_view(ss@.drop_first()));
                }
                Ok(ss)
            },
            Err(err) => Err(err),
        }
    }

    /// Parses the whole token stream into a program: the statements, wrapped
    /// in one outer block, or the first failure.
    pub fn parse(&mut self) -> (r: Result<Vec<Stmt>, ParseError>)
        ensures
            match r {
                Ok(prog) => spec_parse_program(old(self).toks(), old(self).cursor()) matches Some(
                    (ss, _),
                ) && stmts_view(prog@) == seq![SpecStmt::Block(ss)],
                Err(_) => spec_parse_program(old(self).toks(), old(self).cursor()) is None,
            },
    {
        match self.parse_program_rec() {
            Ok(ss) => {
                let mut prog: Vec<Stmt> = Vec::new();
                prog.push(Stmt::Block(ss));
                proof {
                    assert(stmts_view(prog@) =~= seq![stmt_view(prog@[0])]);
                }
                Ok(prog)
            },
            Err(err) => Err(err),
        }
    }
}

} // verus!
