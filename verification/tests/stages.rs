//! Tests for the individual pipeline stages: lexer, token table, parser,
//! semantic analyzer and optimizer.

use toyc::ast::{clone_stmts, BinOp, Expr, Stmt};
use toyc::lexer::lex_program;
use toyc::optimizer::Optimizer;
use toyc::parser::{ParseError, Parser};
use toyc::semantic::{SemanticAnalyzer, SemanticError, Type};
use toyc::token::Token;

#[test]
fn lexer_longest_match_keyword_prefix() {
    // "if2" must lex as one identifier, not the keyword `if` plus `2`.
    let tokens = lex_program("if2");
    assert_eq!(tokens, vec![Token::Identifier(String::from("if2"))]);
}

#[test]
fn lexer_keyword_when_whole_word() {
    let tokens = lex_program("if x");
    assert_eq!(tokens, vec![Token::If, Token::Identifier(String::from("x"))]);
}

#[test]
fn lexer_print_statement() {
    let tokens = lex_program("print(1);");
    assert_eq!(
        tokens,
        vec![
            Token::Print,
            Token::LeftParen,
            Token::IntegerLiteral(1),
            Token::RightParen,
            Token::SemiColon,
        ]
    );
}

#[test]
fn lexer_string_literal_loses_quotes() {
    let tokens = lex_program("\"hi world\"");
    assert_eq!(tokens, vec![Token::StringLiteral(String::from("hi world"))]);
}

#[test]
fn lexer_skips_unmatched_characters() {
    let tokens = lex_program("int @ x");
    assert_eq!(
        tokens,
        vec![Token::Int, Token::Identifier(String::from("x"))]
    );
}

#[test]
fn lexer_extension_keywords() {
    let tokens = lex_program("paywall(1); maybe");
    assert_eq!(
        tokens,
        vec![
            Token::Paywall,
            Token::LeftParen,
            Token::IntegerLiteral(1),
            Token::RightParen,
            Token::SemiColon,
            Token::Maybe,
        ]
    );
}

#[test]
fn lexer_huge_integer_clamps() {
    let tokens = lex_program("99999999999999999999");
    assert_eq!(tokens, vec![Token::IntegerLiteral(i64::MAX)]);
}

#[test]
fn token_table_round_trip() {
    assert_eq!(Token::get_token("Print", None), Token::Print);
    assert_eq!(
        Token::get_token("IntegerLiteral", Some("42")),
        Token::IntegerLiteral(42)
    );
    assert_eq!(
        Token::get_token("Identifier", Some("abc")),
        Token::Identifier(String::from("abc"))
    );
    assert_eq!(
        Token::get_token_regex("Identifier"),
        String::from("[a-zA-Z_][a-zA-Z0-9_]*")
    );
    assert_eq!(Token::get_token_regex("Print"), String::from(r"\bprint\b"));
}

#[test]
fn parser_round_trip_shape() {
    // Parsing `int x = 1 + 2; print(x);` yields a declaration of `x` with a
    // `Binary(Add, 1, 2)` initializer, then a print of a reference to `x`,
    // wrapped in the program's one outer block.
    let tokens = lex_program("int x = 1 + 2; print(x);");
    let mut parser = Parser::new(tokens);
    let program = parser.parse().expect("program must parse");
    let expected = vec![Stmt::Block(vec![
        Stmt::VarDeclaration {
            name: String::from("x"),
            value: Expr::Binary {
                left: Box::new(Expr::IntegerLiteral(1)),
                op: BinOp::Add,
                right: Box::new(Expr::IntegerLiteral(2)),
            },
        },
        Stmt::Print(Expr::Identifier(String::from("x"))),
    ])];
    assert_eq!(program, expected);
}

#[test]
fn parser_if_else() {
    let tokens = lex_program("if (1 > 0) { print(1); } else { print(2); }");
    let mut parser = Parser::new(tokens);
    let program = parser.parse().expect("program must parse");
    let expected = vec![Stmt::Block(vec![Stmt::If {
        condition: Expr::Binary {
            left: Box::new(Expr::IntegerLiteral(1)),
            op: BinOp::GreaterThan,
            right: Box::new(Expr::IntegerLiteral(0)),
        },
        then_block: vec![Stmt::Print(Expr::IntegerLiteral(1))],
        else_block: Some(vec![Stmt::Print(Expr::IntegerLiteral(2))]),
    }])];
    assert_eq!(program, expected);
}

#[test]
fn parser_paywall() {
    let tokens = lex_program("paywall(42);");
    let mut parser = Parser::new(tokens);
    let program = parser.parse().expect("program must parse");
    assert_eq!(program, vec![Stmt::Block(vec![Stmt::Paywall(42)])]);
}

#[test]
fn parser_parenthesised_grouping() {
    let tokens = lex_program("print(2 - (1 - 1));");
    let mut parser = Parser::new(tokens);
    let program = parser.parse().expect("program must parse");
    let expected = vec![Stmt::Block(vec![Stmt::Print(Expr::Binary {
        left: Box::new(Expr::IntegerLiteral(2)),
        op: BinOp::Sub,
        right: Box::new(Expr::Binary {
            left: Box::new(Expr::IntegerLiteral(1)),
            op: BinOp::Sub,
            right: Box::new(Expr::IntegerLiteral(1)),
        }),
    })])];
    assert_eq!(program, expected);
}

#[test]
fn parser_rejects_bad_declaration() {
    let tokens = lex_program("int = 5;");
    let mut parser = Parser::new(tokens);
    assert_eq!(parser.parse(), Err(ParseError::UnexpectedToken));
}

#[test]
fn parser_rejects_unclosed_block() {
    let tokens = lex_program("{ print(1);");
    let mut parser = Parser::new(tokens);
    assert_eq!(parser.parse(), Err(ParseError::UnexpectedToken));
}

fn parse_source(source: &str) -> Vec<Stmt> {
    let mut parser = Parser::new(lex_program(source));
    parser.parse().expect("program must parse")
}

#[test]
fn semantic_scoping_inside_if() {
    // A variable declared inside an `if` branch is undeclared outside it.
    let program = parse_source("if (1 > 0) { int a = 1; } print(a);");
    let mut analyzer = SemanticAnalyzer::new();
    let errors = analyzer.analyze(&program).expect_err("must report a diagnostic");
    assert_eq!(errors, vec![SemanticError::UndeclaredVariable(String::from("a"))]);
}

#[test]
fn semantic_type_mismatch_detection() {
    // `int x = "hi";` yields exactly one TypeMismatch, expected Int, found
    // String.
    let program = parse_source("int x = \"hi\";");
    let mut analyzer = SemanticAnalyzer::new();
    let errors = analyzer.analyze(&program).expect_err("must report a diagnostic");
    assert_eq!(errors.len(), 1);
    assert_eq!(
        errors[0],
        SemanticError::TypeMismatch {
            expected: Type::Int,
            found: Type::String,
            context: String::from("initializer for 'x' must be Int"),
        }
    );
}

#[test]
fn semantic_redeclaration_same_scope() {
    let program = parse_source("int x = 1; int x = 2;");
    let mut analyzer = SemanticAnalyzer::new();
    let errors = analyzer.analyze(&program).expect_err("must report a diagnostic");
    assert_eq!(errors, vec![SemanticError::Redeclaration(String::from("x"))]);
}

#[test]
fn semantic_shadowing_in_inner_block_is_fine() {
    let program = parse_source("int x = 1; { int x = 2; }");
    let mut analyzer = SemanticAnalyzer::new();
    assert!(analyzer.analyze(&program).is_ok());
}

#[test]
fn semantic_if_condition_must_be_bool() {
    let program = parse_source("if (1) { print(1); }");
    let mut analyzer = SemanticAnalyzer::new();
    let errors = analyzer.analyze(&program).expect_err("must report a diagnostic");
    assert_eq!(
        errors,
        vec![SemanticError::TypeMismatch {
            expected: Type::Bool,
            found: Type::Int,
            context: String::from("if condition must be boolean"),
        }]
    );
}

#[test]
fn semantic_maybe_is_boolean() {
    let program = parse_source("if (maybe) { print(1); }");
    let mut analyzer = SemanticAnalyzer::new();
    assert!(analyzer.analyze(&program).is_ok());
}

#[test]
fn optimizer_dead_code_convergence() {
    // `int a = 1; int b = a; print(5);` optimizes to a single `print(5);`.
    let program = vec![
        Stmt::VarDeclaration {
            name: String::from("a"),
            value: Expr::IntegerLiteral(1),
        },
        Stmt::VarDeclaration {
            name: String::from("b"),
            value: Expr::Identifier(String::from("a")),
        },
        Stmt::Print(Expr::IntegerLiteral(5)),
    ];
    let mut optimizer = Optimizer::new();
    let optimized = optimizer.optimize(program);
    assert_eq!(optimized, vec![Stmt::Print(Expr::IntegerLiteral(5))]);
}

#[test]
fn optimizer_branch_pruning() {
    // `if (3 > 1) { print(1); } else { print(2); }` becomes `print(1);`.
    let program = vec![Stmt::If {
        condition: Expr::Binary {
            left: Box::new(Expr::IntegerLiteral(3)),
            op: BinOp::GreaterThan,
            right: Box::new(Expr::IntegerLiteral(1)),
        },
        then_block: vec![Stmt::Print(Expr::IntegerLiteral(1))],
        else_block: Some(vec![Stmt::Print(Expr::IntegerLiteral(2))]),
    }];
    let mut optimizer = Optimizer::new();
    let optimized = optimizer.optimize(program);
    assert_eq!(optimized, vec![Stmt::Print(Expr::IntegerLiteral(1))]);
}

#[test]
fn optimizer_false_branch_without_else_disappears() {
    let program = vec![Stmt::If {
        condition: Expr::Binary {
            left: Box::new(Expr::IntegerLiteral(1)),
            op: BinOp::GreaterThan,
            right: Box::new(Expr::IntegerLiteral(3)),
        },
        then_block: vec![Stmt::Print(Expr::IntegerLiteral(1))],
        else_block: None,
    }];
    let mut optimizer = Optimizer::new();
    let optimized = optimizer.optimize(program);
    assert_eq!(optimized, vec![]);
}

#[test]
fn optimizer_idempotent_on_own_output() {
    // Running the optimizer twice is a no-op: the second run starts from an
    // already-optimal program.
    let program = vec![Stmt::Block(vec![
        Stmt::VarDeclaration {
            name: String::from("a"),
            value: Expr::IntegerLiteral(1),
        },
        Stmt::VarDeclaration {
            name: String::from("b"),
            value: Expr::Identifier(String::from("a")),
        },
        Stmt::Print(Expr::Binary {
            left: Box::new(Expr::IntegerLiteral(2)),
            op: BinOp::Add,
            right: Box::new(Expr::Identifier(String::from("b"))),
        }),
    ])];
    let mut first = Optimizer::new();
    let once = first.optimize(program);
    let copy = clone_stmts(&once);
    let mut second = Optimizer::new();
    let twice = second.optimize(copy);
    assert_eq!(twice, once);
}

#[test]
fn optimizer_identity_rules() {
    // `x + 0`, `0 + x` and `x - 0` all reduce to `x`.
    let x = || Expr::Identifier(String::from("x"));
    let program = vec![
        Stmt::Print(Expr::Binary {
            left: Box::new(x()),
            op: BinOp::Add,
            right: Box::new(Expr::IntegerLiteral(0)),
        }),
        Stmt::Print(Expr::Binary {
            left: Box::new(Expr::IntegerLiteral(0)),
            op: BinOp::Add,
            right: Box::new(x()),
        }),
        Stmt::Print(Expr::Binary {
            left: Box::new(x()),
            op: BinOp::Sub,
            right: Box::new(Expr::IntegerLiteral(0)),
        }),
    ];
    let mut optimizer = Optimizer::new();
    let optimized = optimizer.optimize(program);
    assert_eq!(optimized, vec![Stmt::Print(x()), Stmt::Print(x()), Stmt::Print(x())]);
}

#[test]
fn optimizer_folds_string_concatenation() {
    let program = vec![Stmt::Print(Expr::Binary {
        left: Box::new(Expr::StringLiteral(String::from("ab"))),
        op: BinOp::Add,
        right: Box::new(Expr::StringLiteral(String::from("cd"))),
    })];
    let mut optimizer = Optimizer::new();
    let optimized = optimizer.optimize(program);
    assert_eq!(
        optimized,
        vec![Stmt::Print(Expr::StringLiteral(String::from("abcd")))]
    );
}

#[test]
fn optimizer_leaves_overflowing_fold_unchanged() {
    let program = vec![Stmt::Print(Expr::Binary {
        left: Box::new(Expr::IntegerLiteral(i32::MAX)),
        op: BinOp::Add,
        right: Box::new(Expr::IntegerLiteral(1)),
    })];
    let mut optimizer = Optimizer::new();
    let optimized = optimizer.optimize(program);
    assert_eq!(
        optimized,
        vec![Stmt::Print(Expr::Binary {
            left: Box::new(Expr::IntegerLiteral(i32::MAX)),
            op: BinOp::Add,
            right: Box::new(Expr::IntegerLiteral(1)),
        })]
    );
}

#[test]
fn optimizer_reassignment_invalidates_constant() {
    // After `x = x < 2`, the declaration's constant for `x` is forgotten, so
    // the final print keeps the variable reference.
    let program = vec![
        Stmt::VarDeclaration {
            name: String::from("x"),
            value: Expr::IntegerLiteral(1),
        },
        Stmt::ExprStmt(Expr::Assign {
            name: String::from("x"),
            value: Box::new(Expr::Binary {
                left: Box::new(Expr::Identifier(String::from("x"))),
                op: BinOp::LessThan,
                right: Box::new(Expr::IntegerLiteral(2)),
            }),
        }),
        Stmt::Print(Expr::Identifier(String::from("x"))),
    ];
    let mut optimizer = Optimizer::new();
    let optimized = optimizer.optimize(program);
    // The assignment's right side propagates the old constant (1 < 2 folds
    // to true), but the print must still read `x`.
    assert_eq!(
        optimized,
        vec![
            Stmt::VarDeclaration {
                name: String::from("x"),
                value: Expr::IntegerLiteral(1),
            },
            Stmt::ExprStmt(Expr::Assign {
                name: String::from("x"),
                value: Box::new(Expr::BooleanLiteral(true)),
            }),
            Stmt::Print(Expr::Identifier(String::from("x"))),
        ]
    );
}
