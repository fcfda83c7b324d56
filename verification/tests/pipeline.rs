//! Tests for the code generators and the whole compilation pipeline.

use toyc::ast::{BinOp, Expr, Stmt};
use toyc::codegen::{Codegen, CodegenError};
use toyc::compile;
use toyc::parser::ParseError;
use toyc::semantic::{SemanticError, Type};
use toyc::CompileError;

/// A right-nested addition chain of the given depth: `1 + (1 + (1 + ...))`.
/// Each level holds its left operand live while the right side evaluates,
/// so the chain needs as many scratch registers as it is deep.
fn right_nested(depth: u32) -> Expr {
    if depth <= 1 {
        Expr::IntegerLiteral(1)
    } else {
        Expr::Binary {
            left: Box::new(Expr::IntegerLiteral(1)),
            op: BinOp::Add,
            right: Box::new(right_nested(depth - 1)),
        }
    }
}

#[test]
fn codegen_register_pool_bound() {
    // Nesting deeper than the seven-register pool must surface the
    // resource-exhaustion failure.
    let program = vec![Stmt::Print(right_nested(8))];
    let generator = Codegen::new();
    assert_eq!(generator.generate(&program), Err(CodegenError::OutOfRegisters));
}

#[test]
fn codegen_pool_suffices_at_its_bound() {
    // Depth seven fits the pool exactly.
    let program = vec![Stmt::Print(right_nested(7))];
    let generator = Codegen::new();
    assert!(generator.generate(&program).is_ok());
}

#[test]
fn codegen_deep_left_nesting_reuses_registers() {
    // A left-leaning chain reuses its registers, so any depth fits.
    let mut e = Expr::IntegerLiteral(1);
    let mut i = 0;
    while i < 40 {
        e = Expr::Binary {
            left: Box::new(e),
            op: BinOp::Add,
            right: Box::new(Expr::IntegerLiteral(1)),
        };
        i += 1;
    }
    let program = vec![Stmt::Print(e)];
    let generator = Codegen::new();
    assert!(generator.generate(&program).is_ok());
}

#[test]
fn codegen_frame_overflow_detected() {
    // The fixed 512-byte frame holds 64 slots; a 65th distinct variable is
    // an explicit frame-overflow error, not silent corruption.
    let mut program: Vec<Stmt> = Vec::new();
    for i in 0..65 {
        program.push(Stmt::VarDeclaration {
            name: format!("v{}", i),
            value: Expr::IntegerLiteral(1),
        });
    }
    let generator = Codegen::new();
    assert_eq!(generator.generate(&program), Err(CodegenError::FrameOverflow));
}

#[test]
fn codegen_print_integer() {
    let program = vec![Stmt::Print(Expr::IntegerLiteral(7))];
    let generator = Codegen::new();
    let text = generator.generate(&program).expect("generation must succeed");
    assert!(text.starts_with("\t.data\n"));
    assert!(text.contains("fmt_int: .asciz \"%d\\n\""));
    assert!(text.contains("\t.global main\n"));
    // The pool hands out x15 first.
    assert!(text.contains("\tmov x15, #7\n"));
    assert!(text.contains("\tmov x1, x15\n"));
    assert!(text.contains("\tbl printf\n"));
    assert!(text.ends_with("\tret\n"));
}

#[test]
fn codegen_print_string_literal_uses_string_format() {
    let program = vec![Stmt::Print(Expr::StringLiteral(String::from("hi")))];
    let generator = Codegen::new();
    let text = generator.generate(&program).expect("generation must succeed");
    assert!(text.contains(".LC0: .asciz \"hi\"\n"));
    assert!(text.contains("\tadr x0, fmt_str\n"));
    assert!(text.contains("\tadr x1, .LC0\n"));
}

#[test]
fn codegen_interning_never_deduplicates() {
    let program = vec![
        Stmt::Print(Expr::StringLiteral(String::from("hi"))),
        Stmt::Print(Expr::StringLiteral(String::from("hi"))),
    ];
    let generator = Codegen::new();
    let text = generator.generate(&program).expect("generation must succeed");
    assert!(text.contains(".LC0: .asciz \"hi\"\n"));
    assert!(text.contains(".LC1: .asciz \"hi\"\n"));
}

#[test]
fn codegen_variables_get_distinct_slots() {
    let program = vec![
        Stmt::VarDeclaration {
            name: String::from("a"),
            value: Expr::IntegerLiteral(1),
        },
        Stmt::VarDeclaration {
            name: String::from("b"),
            value: Expr::IntegerLiteral(2),
        },
        Stmt::Print(Expr::Identifier(String::from("b"))),
    ];
    let generator = Codegen::new();
    let text = generator.generate(&program).expect("generation must succeed");
    assert!(text.contains("\tstr x15, [sp, #0]\n"));
    assert!(text.contains("\tstr x15, [sp, #8]\n"));
    assert!(text.contains("\tldr x15, [sp, #8]\n"));
}

#[test]
fn codegen_if_lowering_uses_fresh_labels() {
    let program = vec![Stmt::If {
        condition: Expr::BooleanLiteral(true),
        then_block: vec![Stmt::Print(Expr::IntegerLiteral(1))],
        else_block: Some(vec![Stmt::Print(Expr::IntegerLiteral(2))]),
    }];
    let generator = Codegen::new();
    let text = generator.generate(&program).expect("generation must succeed");
    assert!(text.contains("\tcmp x15, #0\n"));
    assert!(text.contains("\tbeq else_0\n"));
    assert!(text.contains("\tb end_if_1\n"));
    assert!(text.contains("\telse_0:\n"));
    assert!(text.contains("\tend_if_1:\n"));
}

#[test]
fn codegen_paywall_lowering() {
    let program = vec![Stmt::Paywall(9)];
    let generator = Codegen::new();
    let text = generator.generate(&program).expect("generation must succeed");
    assert!(text.contains("msg_pay"));
    assert!(text.contains("\tbl scanf\n"));
    assert!(text.contains("\tbl strcmp\n"));
    assert!(text.contains("\tsvc #0\n"));
    assert!(text.contains("\tpaid_0:\n"));
}

#[test]
fn arm64_variant_generates_single_register_code() {
    let program = vec![Stmt::Print(Expr::IntegerLiteral(5))];
    let generator = toyc::codegen::arm64::Codegen::new();
    let text = generator.generate(&program);
    assert!(text.starts_with("\t.data\n"));
    assert!(text.contains("\tldr x14, =5\n"));
    assert!(text.contains("\tadrp x0, fmt_int\n"));
    assert!(text.contains("\tmov x1, x14\n"));
    assert!(text.ends_with("\tret\n"));
}

#[test]
fn arm64_variant_paywall() {
    let program = vec![Stmt::Paywall(1)];
    let generator = toyc::codegen::arm64::Codegen::new();
    let text = generator.generate(&program);
    assert!(text.contains("\tadd x0, x0, :lo12:msg_pay\n"));
    assert!(text.contains("\tmov x8, #93\n"));
    assert!(text.contains("paid_0:\n"));
}

#[test]
fn compile_constant_folds_whole_program() {
    let text = compile("int x = 1 + 2; print(x);").expect("compilation must succeed");
    // Constant propagation and dead-code elimination leave one print of 3.
    assert!(text.contains("\tmov x15, #3\n"));
    assert!(!text.contains("\tstr "));
}

#[test]
fn compile_empty_program() {
    let text = compile("").expect("compilation must succeed");
    assert!(text.contains("\t.global main\n"));
    assert!(text.ends_with("\tret\n"));
}

#[test]
fn compile_parse_failure_prevents_codegen() {
    assert_eq!(
        compile("print(;"),
        Err(CompileError::Parse(ParseError::UnexpectedToken))
    );
}

#[test]
fn compile_semantic_failure_prevents_codegen() {
    assert_eq!(
        compile("int x = \"hi\";"),
        Err(CompileError::Semantic(vec![SemanticError::TypeMismatch {
            expected: Type::Int,
            found: Type::String,
            context: String::from("initializer for 'x' must be Int"),
        }]))
    );
}

#[test]
fn compile_nondeterministic_condition_reaches_runtime() {
    let text = compile("if (maybe) { print(1); } else { print(2); }")
        .expect("compilation must succeed");
    assert!(text.contains("\tbl rand\n"));
    assert!(text.contains("\tbeq else_0\n"));
}

#[test]
fn compile_register_exhaustion_surfaces() {
    // Parenthesised right-nesting deeper than the pool reaches code
    // generation (the sums overflow 32 bits, so nothing folds) and fails
    // with the register error.
    let mut expr = String::from("2000000000");
    for _ in 0..8 {
        expr = format!("2000000000 + ({})", expr);
    }
    let source = format!("print({});", expr);
    assert_eq!(
        compile(&source),
        Err(CompileError::Codegen(CodegenError::OutOfRegisters))
    );
}

#[test]
fn compile_negative_fold_renders_minus_sign() {
    let text = compile("print(1 - 2);").expect("compilation must succeed");
    assert!(text.contains("\tmov x15, #-1\n"));
}

#[test]
fn compile_guard_statement() {
    let text = compile("paywall(5);").expect("compilation must succeed");
    assert!(text.contains("\tbl scanf\n"));
    assert!(text.contains("\tsvc #0\n"));
}
