//! A deliberately simple AArch64 generator variant: every expression
//! evaluates into the single scratch register `x14`, every `print` renders
//! through the integer format, and the guard statement uses the
//! `adrp`/`add` addressing form. It never fails; a frame past its last slot
//! reuses the final 8-byte slot rather than growing.
//!
//! As with the main generator, the emission is stated once as specification
//! functions over a ghost state, and `generate` is proved to return exactly
//! the text they describe.

use vstd::prelude::*;
use vstd::string::*;
use crate::ast::{expr_view, stmt_view, stmts_view, BinOp, Expr, SpecExpr, SpecStmt, Stmt};
use crate::text::{cat2, cat3, dec_str, i64_to_string, int_str, str_eq, u64_to_string};

verus! {

/// The variant generator's ghost state.
#[verifier::ext_equal]
pub struct SpecA64State {
    /// The emitted text so far, one line at a time.
    pub out: Seq<char>,
    /// Variable name to frame offset.
    pub vars: Seq<(Seq<char>, int)>,
    /// The next free frame offset, in bytes.
    pub stack_offset: int,
    /// Counter for fresh control-flow labels.
    pub label_counter: int,
}

/// A fresh variant generator.
pub open spec fn a64_init() -> SpecA64State {
    SpecA64State { out: Seq::empty(), vars: Seq::empty(), stack_offset: 0, label_counter: 0 }
}

/// Appends one line.
pub open spec fn a64_emit(st: SpecA64State, line: Seq<char>) -> SpecA64State {
    SpecA64State { out: st.out + line + "\n"@, ..st }
}

/// Mints a fresh label.
pub open spec fn a64_label(st: SpecA64State, prefix: Seq<char>) -> (SpecA64State, Seq<char>) {
    let next = if st.label_counter < u64::MAX as int {
        st.label_counter + 1
    } else {
        st.label_counter
    };
    (SpecA64State { label_counter: next, ..st }, prefix + "_"@ + dec_str(st.label_counter))
}

/// Looks up a variable's frame offset.
pub open spec fn a64_lookup(vars: Seq<(Seq<char>, int)>, name: Seq<char>) -> Option<int>
    decreases vars.len(),
{
    if vars.len() == 0 {
        None
    } else if vars.last().0 == name {
        Some(vars.last().1)
    } else {
        a64_lookup(vars.drop_last(), name)
    }
}

/// Gives a variable a slot the first time it is seen; past the last slot of
/// the frame, the final slot is reused.
pub open spec fn a64_alloc_var(st: SpecA64State, name: Seq<char>) -> (SpecA64State, int) {
    match a64_lookup(st.vars, name) {
        Some(off) => (st, off),
        None => {
            let next = if st.stack_offset <= 504 {
                st.stack_offset + 8
            } else {
                st.stack_offset
            };
            (
                SpecA64State {
                    vars: st.vars.push((name, st.stack_offset)),
                    stack_offset: next,
                    ..st
                },
                st.stack_offset,
            )
        },
    }
}

/// Generates code for an expression; its value ends in `x14`. Expressions
/// the variant does not lower (strings, booleans, assignment) become zero.
pub open spec fn a64_gen_expr(st: SpecA64State, e: SpecExpr) -> SpecA64State
    decreases e,
{
    match e {
        SpecExpr::IntegerLiteral(n) => a64_emit(st, "\tldr x14, ="@ + int_str(n as int)),
        SpecExpr::Identifier(name) => {
            let off = match a64_lookup(st.vars, name) {
                Some(off) => off,
                None => 0,
            };
            a64_emit(st, "\tldr x14, [sp, #"@ + dec_str(off) + "]"@)
        },
        SpecExpr::Binary { left, op, right } => {
            let st1 = a64_gen_expr(st, *left);
            let st2 = a64_gen_expr(st1, *right);
            match op {
                BinOp::Add => a64_emit(st2, "\tadd x14, x14, x14"@),
                BinOp::Sub => a64_emit(st2, "\tsub x14, x14, x14"@),
                BinOp::GreaterThan => a64_emit(
                    a64_emit(st2, "\tcmp x14, x14"@),
                    "\tcset x14, gt"@,
                ),
                BinOp::LessThan => a64_emit(
                    a64_emit(st2, "\tcmp x14, x14"@),
                    "\tcset x14, lt"@,
                ),
            }
        },
        SpecExpr::Maybe => a64_emit(a64_emit(st, "\tbl rand"@), "\tand x14, x0, #1"@),
        _ => a64_emit(st, "\tmov x14, #0"@),
    }
}

/// Generates code for one statement.
pub open spec fn a64_gen_stmt(st: SpecA64State, s: SpecStmt) -> SpecA64State
    decreases s, 0int,
{
    match s {
        SpecStmt::VarDeclaration { name, value } => {
            let st1 = a64_gen_expr(st, value);
            let (st2, off) = a64_alloc_var(st1, name);
            a64_emit(st2, "\tstr x14, [sp, #"@ + dec_str(off) + "]"@)
        },
        SpecStmt::Print(e) => {
            let st1 = a64_gen_expr(st, e);
            a64_emit(
                a64_emit(
                    a64_emit(
                        a64_emit(st1, "\tadrp x0, fmt_int"@),
                        "\tadd  x0, x0, :lo12:fmt_int"@,
                    ),
                    "\tmov x1, x14"@,
                ),
                "\tbl printf"@,
            )
        },
        SpecStmt::Block(ss) => a64_gen_stmts(st, ss),
        SpecStmt::If { condition, then_block, else_block } => {
            let st1 = a64_gen_expr(st, condition);
            let (st2, label_else) = a64_label(st1, "else"@);
            let (st3, label_end) = a64_label(st2, "endif"@);
            let st4 = a64_emit(a64_emit(st3, "\tcmp x14, #0"@), "\tbeq "@ + label_else);
            let st5 = a64_gen_stmts(st4, then_block);
            let st6 = a64_emit(a64_emit(st5, "\tb "@ + label_end), label_else + ":"@);
            let st7 = match else_block {
                Some(ss) => a64_gen_stmts(st6, ss),
                None => st6,
            };
            a64_emit(st7, label_end + ":"@)
        },
        SpecStmt::ExprStmt(e) => a64_gen_expr(st, e),
        SpecStmt::Paywall(_) => {
            let st1 = a64_emit(
                a64_emit(
                    a64_emit(
                        a64_emit(
                            a64_emit(
                                a64_emit(
                                    a64_emit(
                                        a64_emit(
                                            a64_emit(
                                                a64_emit(st, "\tadrp x0, msg_pay"@),
                                                "\tadd x0, x0, :lo12:msg_pay"@,
                                            ),
                                            "\tbl printf"@,
                                        ),
                                        "\tadrp x0, fmt_scan"@,
                                    ),
                                    "\tadd x0, x0, :lo12:fmt_scan"@,
                                ),
                                "\tadd x1, sp, #400"@,
                            ),
                            "\tbl scanf"@,
                        ),
                        "\tadd x0, sp, #400"@,
                    ),
                    "\tadrp x1, secret"@,
                ),
                "\tadd x1, x1, :lo12:secret"@,
            );
            let st2 = a64_emit(st1, "\tbl strcmp"@);
            let (st3, label_paid) = a64_label(st2, "paid"@);
            a64_emit(
                a64_emit(
                    a64_emit(
                        a64_emit(
                            a64_emit(a64_emit(st3, "\tcmp x0, #0"@), "\tbeq "@ + label_paid),
                            "\tmov x0, #1"@,
                        ),
                        "\tmov x8, #93"@,
                    ),
                    "\tsvc #0"@,
                ),
                label_paid + ":"@,
            )
        },
    }
}

/// Generates code for the statements of `ss` from index `i` on.
pub open spec fn a64_gen_stmts_from(st: SpecA64State, ss: Seq<SpecStmt>, i: int) -> SpecA64State
    decreases ss, ss.len() - i,
{
    if 0 <= i < ss.len() {
        a64_gen_stmts_from(a64_gen_stmt(st, ss[i]), ss, i + 1)
    } else {
        st
    }
}

/// Generates code for a statement list in order.
pub open spec fn a64_gen_stmts(st: SpecA64State, ss: Seq<SpecStmt>) -> SpecA64State
    decreases ss, ss.len() + 1,
{
    a64_gen_stmts_from(st, ss, 0)
}

/// The fixed head of the output: the data section and the text section's
/// entry and prologue.
pub open spec fn a64_head() -> Seq<char> {
    "\t.data\n"@ + "fmt_int: .asciz \"%d\\n\"\n"@ + "fmt_str: .asciz \"%s\\n\"\n"@
        + "fmt_scan: .asciz \"%s\"\n"@
        + "msg_pay: .asciz \"free trial over pew pew, type 'haha' to continue: \"\n"@
        + "secret:  .asciz \"haha\"\n"@ + "\n\t.text\n"@ + "\t.global main\n"@ + "main:\n"@
        + "\tstp x29, x30, [sp, #-16]!\n"@ + "\tmov x29, sp\n"@ + "\tsub sp, sp, #512\n"@
}

/// The epilogue lines appended after the lowered statements.
pub open spec fn a64_epilogue(st: SpecA64State) -> SpecA64State {
    a64_emit(
        a64_emit(
            a64_emit(a64_emit(st, "\tadd sp, sp, #512"@), "\tldp x29, x30, [sp], #16"@),
            "\tmov x0, #0"@,
        ),
        "\tret"@,
    )
}

/// What generation from a given state yields: the fixed head, then the
/// lowered statements and the epilogue.
pub open spec fn a64_generate_from(st: SpecA64State, ss: Seq<SpecStmt>) -> Seq<char> {
    a64_head() + a64_epilogue(a64_gen_stmts(st, ss)).out
}

/// What generation from a fresh variant generator yields.
pub open spec fn a64_generate(ss: Seq<SpecStmt>) -> Seq<char> {
    a64_generate_from(a64_init(), ss)
}

/// The variant generator's state during one run.
pub struct Codegen {
    out: String,
    vars: Vec<(String, u32)>,
    stack_offset: u32,
    label_counter: u64,
}

impl Codegen {
    /// The generator's ghost state.
    pub closed spec fn st(&self) -> SpecA64State {
        SpecA64State {
            out: self.out@,
            vars: Seq::new(self.vars@.len(), |i: int| (self.vars@[i].0@, self.vars@[i].1 as int)),
            stack_offset: self.stack_offset as int,
            label_counter: self.label_counter as int,
        }
    }

    pub fn new() -> (c: Codegen)
        ensures
            c.st() == a64_init(),
    {
        let c = Codegen {
            out: String::new(),
            vars: Vec::new(),
            stack_offset: 0,
            label_counter: 0,
        };
        proof {
            assert(c.st() =~~= a64_init());
        }
        c
    }

    fn emit(&mut self, line: &str)
        ensures
            final(self).st() == a64_emit(old(self).st(), line@),
    {
        self.out.append(line);
        self.out.append("\n");
        proof {
            assert(self.st() =~~= a64_emit(old(self).st(), line@));
        }
    }

    fn label(&mut self, prefix: &str) -> (r: String)
        ensures
            final(self).st() == a64_label(old(self).st(), prefix@).0,
            r@ == a64_label(old(self).st(), prefix@).1,
    {
        let l = cat3(prefix, "_", u64_to_string(self.label_counter).as_str());
        if self.label_counter < u64::MAX {
            self.label_counter = self.label_counter + 1;
        }
        proof {
            assert(self.st() =~~= a64_label(old(self).st(), prefix@).0);
        }
        l
    }

    fn lookup(&self, name: &str) -> (r: Option<u32>)
        ensures
            match r {
                Some(off) => a64_lookup(self.st().vars, name@) == Some(off as int),
                None => a64_lookup(self.st().vars, name@) is None,
            },
    {
        let mut j: usize = self.vars.len();
        proof {
            assert(self.st().vars.take(self.vars@.len() as int) =~= self.st().vars);
        }
        while j > 0
            invariant
                0 <= j <= self.vars@.len(),
                a64_lookup(self.st().vars, name@) == a64_lookup(
                    self.st().vars.take(j as int),
                    name@,
                ),
            decreases j,
        {
            proof {
                assert(self.st().vars.take(j as int).last() == (self.vars@[j - 1].0@, self.vars@[j
                    - 1].1 as int));
                assert(self.st().vars.take(j as int).drop_last() =~= self.st().vars.take(j - 1));
            }
            if str_eq(self.vars[j - 1].0.as_str(), name) {
                return Some(self.vars[j - 1].1);
            }
            j -= 1;
        }
        proof {
            assert(self.st().vars.take(0) =~= Seq::<(Seq<char>, int)>::empty());
        }
        None
    }

    fn alloc_var(&mut self, name: &str) -> (r: u32)
        ensures
            a64_alloc_var(old(self).st(), name@) == (final(self).st(), r as int),
    {
        match self.lookup(name) {
            Some(off) => off,
            None => {
                let off = self.stack_offset;
                self.vars.push((String::from_str(name), off));
                if off <= 504 {
                    self.stack_offset = off + 8;
                }
                proof {
                    assert(self.st() =~~= a64_alloc_var(old(self).st(), name@).0);
                }
                off
            },
        }
    }

    /// Generates code for an expression; its value ends in `x14`.
    fn gen_expr(&mut self, expr: &Expr)
        ensures
            final(self).st() == a64_gen_expr(old(self).st(), expr_view(*expr)),
        decreases *expr,
    {
        match expr {
            Expr::IntegerLiteral(n) => {
                let value = i64_to_string(*n as i64);
                self.emit(cat2("\tldr x14, =", value.as_str()).as_str());
            },
            Expr::Identifier(name) => {
                let off = match self.lookup(name.as_str()) {
                    Some(off) => off,
                    None => 0,
                };
                let offs = u64_to_string(off as u64);
                self.emit(cat3("\tldr x14, [sp, #", offs.as_str(), "]").as_str());
            },
            Expr::Binary { left, op, right } => {
                self.gen_expr(left);
                self.gen_expr(right);
                match op {
                    BinOp::Add => self.emit("\tadd x14, x14, x14"),
                    BinOp::Sub => self.emit("\tsub x14, x14, x14"),
                    BinOp::GreaterThan => {
                        self.emit("\tcmp x14, x14");
                        self.emit("\tcset x14, gt");
                    },
                    BinOp::LessThan => {
                        self.emit("\tcmp x14, x14");
                        self.emit("\tcset x14, lt");
                    },
                }
            },
            Expr::Maybe => {
                self.emit("\tbl rand");
                self.emit("\tand x14, x0, #1");
            },
            _ => {
                self.emit("\tmov x14, #0");
            },
        }
    }

    /// Generates code for one statement.
    #[verifier::rlimit(100)]
    fn gen_stmt(&mut self, stmt: &Stmt)
        ensures
            final(self).st() == a64_gen_stmt(old(self).st(), stmt_view(*stmt)),
        decreases *stmt, 1int,
    {
        match stmt {
            Stmt::VarDeclaration { name, value } => {
                self.gen_expr(value);
                let off = self.alloc_var(name.as_str());
                let offs = u64_to_string(off as u64);
                self.emit(cat3("\tstr x14, [sp, #", offs.as_str(), "]").as_str());
            },
            Stmt::Print(expr) => {
                self.gen_expr(expr);
                self.emit("\tadrp x0, fmt_int");
                self.emit("\tadd  x0, x0, :lo12:fmt_int");
                self.emit("\tmov x1, x14");
                self.emit("\tbl printf");
            },
            Stmt::Block(stmts) => {
                self.gen_stmts(stmts);
            },
            Stmt::If { condition, then_block, else_block } => {
                self.gen_expr(condition);
                let label_else = self.label("else");
                let label_end = self.label("endif");
                self.emit("\tcmp x14, #0");
                self.emit(cat2("\tbeq ", label_else.as_str()).as_str());
                self.gen_stmts(then_block);
                self.emit(cat2("\tb ", label_end.as_str()).as_str());
                self.emit(cat2(label_else.as_str(), ":").as_str());
                if let Some(block) = else_block {
                    self.gen_stmts(block);
                }
                self.emit(cat2(label_end.as_str(), ":").as_str());
            },
            Stmt::ExprStmt(expr) => {
                self.gen_expr(expr);
            },
            Stmt::Paywall(_) => {
                self.emit("\tadrp x0, msg_pay");
                self.emit("\tadd x0, x0, :lo12:msg_pay");
                self.emit("\tbl printf");
                self.emit("\tadrp x0, fmt_scan");
                self.emit("\tadd x0, x0, :lo12:fmt_scan");
                self.emit("\tadd x1, sp, #400");
                self.emit("\tbl scanf");
                self.emit("\tadd x0, sp, #400");
                self.emit("\tadrp x1, secret");
                self.emit("\tadd x1, x1, :lo12:secret");
                self.emit("\tbl strcmp");
                let label_paid = self.label("paid");
                self.emit("\tcmp x0, #0");
                self.emit(cat2("\tbeq ", label_paid.as_str()).as_str());
                self.emit("\tmov x0, #1");
                self.emit("\tmov x8, #93");
                self.emit("\tsvc #0");
                self.emit(cat2(label_paid.as_str(), ":").as_str());
            },
        }
    }

    /// Generates code for a statement list in order.
    fn gen_stmts(&mut self, stmts: &Vec<Stmt>)
        ensures
            final(self).st() == a64_gen_stmts(old(self).st(), stmts_view(stmts@)),
        decreases stmts@, stmts@.len() + 2,
    {
        let ghost ss = stmts_view(stmts@);
        let ghost target = a64_gen_stmts_from(old(self).st(), ss, 0);
        let mut i: usize = 0;
        while i < stmts.len()
            invariant
                0 <= i <= stmts@.len(),
                ss == stmts_view(stmts@),
                target == a64_gen_stmts_from(old(self).st(), ss, 0),
                a64_gen_stmts_from(self.st(), ss, i as int) == target,
            decreases stmts@.len() - i,
        {
            proof {
                assert(ss[i as int] == stmt_view(stmts@[i as int]));
            }
            self.gen_stmt(&stmts[i]);
            i += 1;
        }
    }

    /// Generates the whole program's text: the fixed data section and
    /// prologue, the lowered statements, and the epilogue.
    pub fn generate(self, stmts: &Vec<Stmt>) -> (r: String)
        ensures
            r@ == a64_generate_from(self.st(), stmts_view(stmts@)),
    {
        let mut cg = self;

        let mut out = String::from_str("\t.data\n");
        out.append("fmt_int: .asciz \"%d\\n\"\n");
        out.append("fmt_str: .asciz \"%s\\n\"\n");
        out.append("fmt_scan: .asciz \"%s\"\n");
        out.append("msg_pay: .asciz \"free trial over pew pew, type 'haha' to continue: \"\n");
        out.append("secret:  .asciz \"haha\"\n");
        out.append("\n\t.text\n");
        out.append("\t.global main\n");
        out.append("main:\n");
        out.append("\tstp x29, x30, [sp, #-16]!\n");
        out.append("\tmov x29, sp\n");
        out.append("\tsub sp, sp, #512\n");
        proof {
            assert(out@ == a64_head());
        }

        cg.gen_stmts(stmts);

        cg.emit("\tadd sp, sp, #512");
        cg.emit("\tldp x29, x30, [sp], #16");
        cg.emit("\tmov x0, #0");
        cg.emit("\tret");

        out.append(cg.out.as_str());
        out
    }
}

} // verus!
