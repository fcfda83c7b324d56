//! AArch64 code generation. Expressions evaluate into a small pool of
//! scratch registers (`x9` to `x15`), released in last-allocated-first-freed
//! order; exhausting the pool is the generator's one unrecoverable failure,
//! surfaced as an error rather than corrupting output. Local variables live
//! in 8-byte slots of a fixed 512-byte frame, with an explicit overflow
//! check against that constant. String literals are interned into the data
//! section under fresh labels, one per use site. `print` dispatches on the
//! static shape of its argument: a literal string prints through the string
//! format, everything else evaluates to a register and prints as an
//! integer. The guard statement lowers to a prompt, a read, a comparison
//! against a fixed phrase, and a process exit on mismatch.
//!
//! The whole generator is stated once as specification functions over a
//! ghost generator state; `generate` is proved to return exactly the text
//! they describe.

pub mod arm64;

use vstd::prelude::*;
use vstd::string::*;
use crate::ast::{expr_view, stmt_view, stmts_view, BinOp, Expr, SpecExpr, SpecStmt, Stmt};
use crate::text::{cat2, cat3, cat4, cat5, cat6, dec_str, i64_to_string, int_str, str_eq, u64_to_string};

verus! {

/// The generator's unrecoverable resource failures.
#[derive(Debug, Clone, Copy, PartialEq, Eq, Structural)]
pub enum CodegenError {
    /// The scratch-register pool is exhausted: the expression nests deeper
    /// than the pool can hold live subexpressions.
    OutOfRegisters,
    /// The fixed stack frame has no room for another variable slot.
    FrameOverflow,
}

/// The generator's ghost state.
#[verifier::ext_equal]
pub struct SpecCgState {
    /// Interned string literals for the data section: (label, text).
    pub data_strings: Seq<(Seq<char>, Seq<char>)>,
    /// Variable name to frame offset, assigned once per name.
    pub var_offsets: Seq<(Seq<char>, int)>,
    /// The next free frame offset, in bytes.
    pub next_var_offset: int,
    /// Emitted instruction lines, in order.
    pub instrs: Seq<Seq<char>>,
    /// Counter for fresh control-flow labels.
    pub label_counter: int,
    /// The free scratch registers, allocated from the end.
    pub temp_regs: Seq<int>,
}

/// The frame reserved for locals, in bytes.
pub open spec fn spec_frame_size() -> int {
    512
}

/// A fresh generator: empty tables, the full pool `x9` to `x15`.
pub open spec fn cg_init() -> SpecCgState {
    SpecCgState {
        data_strings: Seq::empty(),
        var_offsets: Seq::empty(),
        next_var_offset: 0,
        instrs: Seq::empty(),
        label_counter: 0,
        temp_regs: seq![9, 10, 11, 12, 13, 14, 15],
    }
}

/// The textual name of a scratch register.
pub open spec fn reg_name(r: int) -> Seq<char> {
    if r == 9 {
        "x9"@
    } else if r == 10 {
        "x10"@
    } else if r == 11 {
        "x11"@
    } else if r == 12 {
        "x12"@
    } else if r == 13 {
        "x13"@
    } else if r == 14 {
        "x14"@
    } else if r == 15 {
        "x15"@
    } else {
        "x0"@
    }
}

/// Appends one instruction line.
pub open spec fn cg_emit(st: SpecCgState, line: Seq<char>) -> SpecCgState {
    SpecCgState { instrs: st.instrs.push(line), ..st }
}

/// Mints a fresh label from a base name and the counter.
pub open spec fn cg_fresh_label(st: SpecCgState, base: Seq<char>) -> (SpecCgState, Seq<char>) {
    let next = if st.label_counter < u64::MAX as int {
        st.label_counter + 1
    } else {
        st.label_counter
    };
    (SpecCgState { label_counter: next, ..st }, base + "_"@ + dec_str(st.label_counter))
}

/// Interns a string literal under a fresh data label.
pub open spec fn cg_intern(st: SpecCgState, text: Seq<char>) -> (SpecCgState, Seq<char>) {
    let label = ".LC"@ + dec_str(st.data_strings.len() as int);
    (SpecCgState { data_strings: st.data_strings.push((label, text)), ..st }, label)
}

/// Looks up a variable's frame offset, if it has one.
pub open spec fn cg_lookup_var(vars: Seq<(Seq<char>, int)>, name: Seq<char>) -> Option<int>
    decreases vars.len(),
{
    if vars.len() == 0 {
        None
    } else if vars.last().0 == name {
        Some(vars.last().1)
    } else {
        cg_lookup_var(vars.drop_last(), name)
    }
}

/// Gives a variable its 8-byte slot, the first time it is seen; fails when
/// the fixed frame is full.
pub open spec fn cg_alloc_var(st: SpecCgState, name: Seq<char>) -> Result<
    (SpecCgState, int),
    CodegenError,
> {
    match cg_lookup_var(st.var_offsets, name) {
        Some(off) => Ok((st, off)),
        None => {
            if st.next_var_offset + 8 <= spec_frame_size() {
                Ok(
                    (
                        SpecCgState {
                            var_offsets: st.var_offsets.push((name, st.next_var_offset)),
                            next_var_offset: st.next_var_offset + 8,
                            ..st
                        },
                        st.next_var_offset,
                    ),
                )
            } else {
                Err(CodegenError::FrameOverflow)
            }
        },
    }
}

/// Takes a scratch register from the pool.
pub open spec fn cg_alloc_tmp(st: SpecCgState) -> Result<(SpecCgState, int), CodegenError> {
    if st.temp_regs.len() == 0 {
        Err(CodegenError::OutOfRegisters)
    } else {
        Ok((SpecCgState { temp_regs: st.temp_regs.drop_last(), ..st }, st.temp_regs.last()))
    }
}

/// Returns a scratch register to the pool.
pub open spec fn cg_free_tmp(st: SpecCgState, r: int) -> SpecCgState {
    SpecCgState { temp_regs: st.temp_regs.push(r), ..st }
}

/// Generates code for an expression; on success, the register holding its
/// value, which the consumer frees.
pub open spec fn cg_gen_expr(st: SpecCgState, e: SpecExpr) -> Result<
    (SpecCgState, int),
    CodegenError,
>
    decreases e,
{
    match e {
        SpecExpr::IntegerLiteral(n) => match cg_alloc_tmp(st) {
            Ok((st1, r)) => Ok(
                (cg_emit(st1, "\tmov "@ + reg_name(r) + ", #"@ + int_str(n as int)), r),
            ),
            Err(err) => Err(err),
        },
        SpecExpr::BooleanLiteral(b) => match cg_alloc_tmp(st) {
            Ok((st1, r)) => Ok(
                (
                    cg_emit(
                        st1,
                        "\tmov "@ + reg_name(r) + ", #"@ + (if b {
                            "1"@
                        } else {
                            "0"@
                        }),
                    ),
                    r,
                ),
            ),
            Err(err) => Err(err),
        },
        SpecExpr::StringLiteral(s) => {
            let (st1, label) = cg_intern(st, s);
            match cg_alloc_tmp(st1) {
                Ok((st2, r)) => Ok((cg_emit(st2, "\tadr "@ + reg_name(r) + ", "@ + label), r)),
                Err(err) => Err(err),
            }
        },
        SpecExpr::Identifier(name) => match cg_alloc_tmp(st) {
            Ok((st1, r)) => match cg_lookup_var(st1.var_offsets, name) {
                Some(off) => Ok(
                    (
                        cg_emit(st1, "\tldr "@ + reg_name(r) + ", [sp, #"@ + dec_str(off) + "]"@),
                        r,
                    ),
                ),
                None => Ok((cg_emit(st1, "\tmov "@ + reg_name(r) + ", #0"@), r)),
            },
            Err(err) => Err(err),
        },
        SpecExpr::Assign { name, value } => match cg_gen_expr(st, *value) {
            Ok((st1, vr)) => match cg_alloc_var(st1, name) {
                Ok((st2, off)) => Ok(
                    (
                        cg_emit(st2, "\tstr "@ + reg_name(vr) + ", [sp, #"@ + dec_str(off) + "]"@),
                        vr,
                    ),
                ),
                Err(err) => Err(err),
            },
            Err(err) => Err(err),
        },
        SpecExpr::Binary { left, op, right } => match cg_gen_expr(st, *left) {
            Ok((st1, rl)) => match cg_gen_expr(st1, *right) {
                Ok((st2, rr)) => {
                    let st3 = match op {
                        BinOp::Add => cg_emit(
                            st2,
                            "\tadd "@ + reg_name(rl) + ", "@ + reg_name(rl) + ", "@ + reg_name(rr),
                        ),
                        BinOp::Sub => cg_emit(
                            st2,
                            "\tsub "@ + reg_name(rl) + ", "@ + reg_name(rl) + ", "@ + reg_name(rr),
                        ),
                        BinOp::GreaterThan => cg_emit(
                            cg_emit(st2, "\tcmp "@ + reg_name(rl) + ", "@ + reg_name(rr)),
                            "\tcset "@ + reg_name(rl) + ", gt"@,
                        ),
                        BinOp::LessThan => cg_emit(
                            cg_emit(st2, "\tcmp "@ + reg_name(rl) + ", "@ + reg_name(rr)),
                            "\tcset "@ + reg_name(rl) + ", lt"@,
                        ),
                    };
                    Ok((cg_free_tmp(st3, rr), rl))
                },
                Err(err) => Err(err),
            },
            Err(err) => Err(err),
        },
        SpecExpr::Maybe => match cg_alloc_tmp(st) {
            Ok((st1, r)) => Ok(
                (
                    cg_emit(cg_emit(st1, "\tbl rand"@), "\tand "@ + reg_name(r) + ", x0, #1"@),
                    r,
                ),
            ),
            Err(err) => Err(err),
        },
    }
}

/// Generates code for one statement.
pub open spec fn cg_gen_stmt(st: SpecCgState, s: SpecStmt) -> Result<SpecCgState, CodegenError>
    decreases s, 0int,
{
    match s {
        SpecStmt::VarDeclaration { name, value } => match cg_alloc_var(st, name) {
            Ok((st1, off)) => match cg_gen_expr(st1, value) {
                Ok((st2, r)) => Ok(
                    cg_free_tmp(
                        cg_emit(st2, "\tstr "@ + reg_name(r) + ", [sp, #"@ + dec_str(off) + "]"@),
                        r,
                    ),
                ),
                Err(err) => Err(err),
            },
            Err(err) => Err(err),
        },
        SpecStmt::Print(e) => match e {
            SpecExpr::StringLiteral(text) => {
                let (st1, label) = cg_intern(st, text);
                Ok(
                    cg_emit(
                        cg_emit(cg_emit(st1, "\tadr x0, fmt_str"@), "\tadr x1, "@ + label),
                        "\tbl printf"@,
                    ),
                )
            },
            _ => match cg_gen_expr(st, e) {
                Ok((st1, r)) => Ok(
                    cg_free_tmp(
                        cg_emit(
                            cg_emit(
                                cg_emit(st1, "\tadr x0, fmt_int"@),
                                "\tmov x1, "@ + reg_name(r),
                            ),
                            "\tbl printf"@,
                        ),
                        r,
                    ),
                ),
                Err(err) => Err(err),
            },
        },
        SpecStmt::If { condition, then_block, else_block } => match cg_gen_expr(st, condition) {
            Ok((st1, cr)) => {
                let (st2, else_lbl) = cg_fresh_label(st1, "else"@);
                let (st3, end_lbl) = cg_fresh_label(st2, "end_if"@);
                let st4 = cg_emit(
                    cg_emit(st3, "\tcmp "@ + reg_name(cr) + ", #0"@),
                    "\tbeq "@ + else_lbl,
                );
                match cg_gen_stmts(st4, then_block) {
                    Ok(st5) => {
                        let st6 = cg_emit(cg_emit(st5, "\tb "@ + end_lbl), "\t"@ + else_lbl + ":"@);
                        let after_else = match else_block {
                            Some(ss) => cg_gen_stmts(st6, ss),
                            None => Ok(st6),
                        };
                        match after_else {
                            Ok(st7) => Ok(
                                cg_free_tmp(cg_emit(st7, "\t"@ + end_lbl + ":"@), cr),
                            ),
                            Err(err) => Err(err),
                        }
                    },
                    Err(err) => Err(err),
                }
            },
            Err(err) => Err(err),
        },
        SpecStmt::Block(ss) => cg_gen_stmts(st, ss),
        SpecStmt::ExprStmt(e) => match cg_gen_expr(st, e) {
            Ok((st1, r)) => Ok(cg_free_tmp(st1, r)),
            Err(err) => Err(err),
        },
        SpecStmt::Paywall(_) => {
            let st1 = cg_emit(
                cg_emit(
                    cg_emit(
                        cg_emit(
                            cg_emit(
                                cg_emit(
                                    cg_emit(cg_emit(st, "\tadr x0, msg_pay"@), "\tbl printf"@),
                                    "\tadr x0, fmt_scan"@,
                                ),
                                "\tadd x1, sp, #400"@,
                            ),
                            "\tbl scanf"@,
                        ),
                        "\tadd x0, sp, #400"@,
                    ),
                    "\tadr x1, secret"@,
                ),
                "\tbl strcmp"@,
            );
            let (st2, paid_lbl) = cg_fresh_label(st1, "paid"@);
            Ok(
                cg_emit(
                    cg_emit(
                        cg_emit(
                            cg_emit(
                                cg_emit(cg_emit(st2, "\tcmp x0, #0"@), "\tbeq "@ + paid_lbl),
                                "\tmov x0, #1"@,
                            ),
                            "\tmov x8, #93"@,
                        ),
                        "\tsvc #0"@,
                    ),
                    "\t"@ + paid_lbl + ":"@,
                ),
            )
        },
    }
}

/// Generates code for the statements of `ss` from index `i` on.
pub open spec fn cg_gen_stmts_from(st: SpecCgState, ss: Seq<SpecStmt>, i: int) -> Result<
    SpecCgState,
    CodegenError,
>
    decreases ss, ss.len() - i,
{
    if 0 <= i < ss.len() {
        match cg_gen_stmt(st, ss[i]) {
            Ok(st1) => cg_gen_stmts_from(st1, ss, i + 1),
            Err(err) => Err(err),
        }
    } else {
        Ok(st)
    }
}

/// Generates code for a statement list in order.
pub open spec fn cg_gen_stmts(st: SpecCgState, ss: Seq<SpecStmt>) -> Result<
    SpecCgState,
    CodegenError,
>
    decreases ss, ss.len() + 1,
{
    cg_gen_stmts_from(st, ss, 0)
}

/// The standard prologue: a label for `main`, saved frame pointer and
/// return address, and the fixed frame reservation.
pub open spec fn cg_prologue(st: SpecCgState) -> SpecCgState {
    cg_emit(
        cg_emit(
            cg_emit(cg_emit(st, "\tmain:"@), "\tstp x29, x30, [sp, #-16]!"@),
            "\tmov x29, sp"@,
        ),
        "\tsub sp, sp, #512"@,
    )
}

/// The standard epilogue: release the frame, restore registers, return a
/// zero status.
pub open spec fn cg_epilogue(st: SpecCgState) -> SpecCgState {
    cg_emit(
        cg_emit(
            cg_emit(cg_emit(st, "\tadd sp, sp, #512"@), "\tldp x29, x30, [sp], #16"@),
            "\tmov x0, #0"@,
        ),
        "\tret"@,
    )
}

/// The fixed head of the data section: the two print formats and the guard
/// statement's strings.
pub open spec fn cg_data_head() -> Seq<char> {
    "\t.data\n"@ + r#"fmt_int: .asciz "%d\n""#@ + "\n"@ + r#"fmt_str: .asciz "%s\n""#@ + "\n"@
        + r#"fmt_scan: .asciz "%s""#@ + "\n"@
        + r#"msg_pay: .asciz "free trial over pew pew, type 'haha' to continue: ""#@ + "\n"@
        + r#"secret:  .asciz "haha""#@ + "\n"@
}

/// Appends the interned string entries of the data section, from `i` on.
pub open spec fn cg_data_entries(acc: Seq<char>, entries: Seq<(Seq<char>, Seq<char>)>, i: int) -> Seq<
    char,
>
    decreases entries.len() - i,
{
    if 0 <= i < entries.len() {
        cg_data_entries(
            acc + entries[i].0 + ": .asciz \""@ + entries[i].1 + "\""@ + "\n"@,
            entries,
            i + 1,
        )
    } else {
        acc
    }
}

/// Appends the instruction lines, from `i` on, one per line.
pub open spec fn cg_instr_lines(acc: Seq<char>, lines: Seq<Seq<char>>, i: int) -> Seq<char>
    decreases lines.len() - i,
{
    if 0 <= i < lines.len() {
        cg_instr_lines(acc + lines[i] + "\n"@, lines, i + 1)
    } else {
        acc
    }
}

/// Assembles the final text: the data section, then the text section with
/// the global entry point and the emitted instructions.
pub open spec fn cg_assemble(st: SpecCgState) -> Seq<char> {
    cg_instr_lines(
        cg_data_entries(cg_data_head(), st.data_strings, 0) + "\n\t.text\n"@ + "\t.global main\n"@,
        st.instrs,
        0,
    )
}

/// What generation from a given state yields for a program.
pub open spec fn cg_generate_from(st: SpecCgState, ss: Seq<SpecStmt>) -> Result<
    Seq<char>,
    CodegenError,
> {
    match cg_gen_stmts(cg_prologue(st), ss) {
        Ok(st1) => Ok(cg_assemble(cg_epilogue(st1))),
        Err(err) => Err(err),
    }
}

/// What generation from a fresh generator yields for a program.
pub open spec fn cg_generate(ss: Seq<SpecStmt>) -> Result<Seq<char>, CodegenError> {
    cg_generate_from(cg_init(), ss)
}

/// The scratch registers an expression holds live at its deepest point: a
/// leaf takes one; a binary operation holds its left result while the right
/// side evaluates.
pub open spec fn regs_needed(e: SpecExpr) -> int
    decreases e,
{
    match e {
        SpecExpr::Binary { left, op, right } => {
            let nl = regs_needed(*left);
            let nr = regs_needed(*right);
            if nl >= nr + 1 {
                nl
            } else {
                nr + 1
            }
        },
        _ => 1,
    }
}

/// An expression whose generation can only fail for want of registers:
/// anything without an assignment (assignment may also fill the frame).
pub open spec fn pure_expr(e: SpecExpr) -> bool
    decreases e,
{
    match e {
        SpecExpr::Assign { name, value } => false,
        SpecExpr::Binary { left, op, right } => pure_expr(*left) && pure_expr(*right),
        _ => true,
    }
}

/// A successful expression nets exactly one register out of the pool.
proof fn lemma_gen_expr_net(st: SpecCgState, e: SpecExpr)
    ensures
        cg_gen_expr(st, e) matches Ok(p) ==> p.0.temp_regs.len() == st.temp_regs.len() - 1,
    decreases e,
{
    match e {
        SpecExpr::Binary { left, op, right } => {
            lemma_gen_expr_net(st, *left);
            if cg_gen_expr(st, *left) is Ok {
                let (st1, rl) = cg_gen_expr(st, *left)->Ok_0;
                lemma_gen_expr_net(st1, *right);
            }
        },
        SpecExpr::Assign { name, value } => {
            lemma_gen_expr_net(st, *value);
        },
        _ => {},
    }
}

/// A pure expression fails only with the register-exhaustion error.
proof fn lemma_gen_expr_pure_err(st: SpecCgState, e: SpecExpr)
    requires
        pure_expr(e),
    ensures
        cg_gen_expr(st, e) matches Err(er) ==> er == CodegenError::OutOfRegisters,
    decreases e,
{
    match e {
        SpecExpr::Binary { left, op, right } => {
            lemma_gen_expr_pure_err(st, *left);
            if cg_gen_expr(st, *left) is Ok {
                let (st1, rl) = cg_gen_expr(st, *left)->Ok_0;
                lemma_gen_expr_pure_err(st1, *right);
            }
        },
        _ => {},
    }
}

/// A pure expression that needs more registers than the pool has left
/// cannot generate: the pool is exhausted.
proof fn lemma_gen_expr_exhaustion(st: SpecCgState, e: SpecExpr)
    requires
        pure_expr(e),
        regs_needed(e) > st.temp_regs.len(),
    ensures
        cg_gen_expr(st, e) is Err,
    decreases e,
{
    match e {
        SpecExpr::Binary { left, op, right } => {
            let nl = regs_needed(*left);
            let nr = regs_needed(*right);
            if nl > st.temp_regs.len() {
                lemma_gen_expr_exhaustion(st, *left);
            } else {
                match cg_gen_expr(st, *left) {
                    Ok((st1, rl)) => {
                        lemma_gen_expr_net(st, *left);
                        lemma_gen_expr_exhaustion(st1, *right);
                    },
                    Err(_) => {},
                }
            }
        },
        _ => {},
    }
}

/// Register pool bound: printing an assignment-free expression that nests
/// deeper than the pool's seven registers (counting held left operands)
/// fails with the resource-exhaustion error, rather than silently reusing a
/// live register.
pub proof fn lemma_register_pool_bound(e: SpecExpr)
    requires
        pure_expr(e),
        regs_needed(e) > 7,
    ensures
        cg_generate(seq![SpecStmt::Print(e)]) == Err::<Seq<char>, CodegenError>(
            CodegenError::OutOfRegisters,
        ),
{
    let st = cg_prologue(cg_init());
    assert(st.temp_regs.len() == 7);
    lemma_gen_expr_exhaustion(st, e);
    lemma_gen_expr_pure_err(st, e);
    let ss = seq![SpecStmt::Print(e)];
    assert(ss[0] == SpecStmt::Print(e));
    assert(!(e is StringLiteral));
    assert(cg_gen_stmt(st, ss[0]) is Err);
}

fn reg_str(r: u8) -> (s: &'static str)
    ensures
        s@ == reg_name(r as int),
{
    match r {
        9 => "x9",
        10 => "x10",
        11 => "x11",
        12 => "x12",
        13 => "x13",
        14 => "x14",
        15 => "x15",
        _ => "x0",
    }
}

/// The code generator's state during one run: the data-section strings, the
/// variable slots, the instruction buffer, the label counter and the free
/// scratch registers.
pub struct Codegen {
    data_strings: Vec<(String, String)>,
    var_offsets: Vec<(String, u32)>,
    next_var_offset: u32,
    instrs: Vec<String>,
    label_counter: u64,
    temp_regs: Vec<u8>,
}

impl Codegen {
    /// The generator's ghost state.
    pub closed spec fn st(&self) -> SpecCgState {
        SpecCgState {
            data_strings: Seq::new(
                self.data_strings@.len(),
                |i: int| (self.data_strings@[i].0@, self.data_strings@[i].1@),
            ),
            var_offsets: Seq::new(
                self.var_offsets@.len(),
                |i: int| (self.var_offsets@[i].0@, self.var_offsets@[i].1 as int),
            ),
            next_var_offset: self.next_var_offset as int,
            instrs: Seq::new(self.instrs@.len(), |i: int| self.instrs@[i]@),
            label_counter: self.label_counter as int,
            temp_regs: Seq::new(self.temp_regs@.len(), |i: int| self.temp_regs@[i] as int),
        }
    }

    pub fn new() -> (c: Codegen)
        ensures
            c.st() == cg_init(),
    {
        let mut temp_regs: Vec<u8> = Vec::new();
        temp_regs.push(9);
        temp_regs.push(10);
        temp_regs.push(11);
        temp_regs.push(12);
        temp_regs.push(13);
        temp_regs.push(14);
        temp_regs.push(15);
        let c = Codegen {
            data_strings: Vec::new(),
            var_offsets: Vec::new(),
            next_var_offset: 0,
            instrs: Vec::new(),
            label_counter: 0,
            temp_regs,
        };
        proof {
            assert(c.st() =~~= cg_init());
        }
        c
    }

    /// Buffers one line of assembly.
    fn emit(&mut self, line: String)
        ensures
            final(self).st() == cg_emit(old(self).st(), line@),
    {
        self.instrs.push(line);
        proof {
            assert(self.st() =~~= cg_emit(old(self).st(), line@));
        }
    }

    /// Mints a fresh unique label.
    fn fresh_label(&mut self, base: &str) -> (r: String)
        ensures
            final(self).st() == cg_fresh_label(old(self).st(), base@).0,
            r@ == cg_fresh_label(old(self).st(), base@).1,
    {
        let label = cat3(base, "_", u64_to_string(self.label_counter).as_str());
        if self.label_counter < u64::MAX {
            self.label_counter = self.label_counter + 1;
        }
        proof {
            assert(self.st() =~~= cg_fresh_label(old(self).st(), base@).0);
        }
        label
    }

    /// Interns a string literal into the data section; its fresh label.
    fn intern_string(&mut self, s: &str) -> (r: String)
        ensures
            final(self).st() == cg_intern(old(self).st(), s@).0,
            r@ == cg_intern(old(self).st(), s@).1,
    {
        let label = cat2(".LC", u64_to_string(self.data_strings.len() as u64).as_str());
        self.data_strings.push((label.clone(), String::from_str(s)));
        proof {
            assert(self.st() =~~= cg_intern(old(self).st(), s@).0);
        }
        label
    }

    /// Looks up a variable's frame offset.
    fn lookup_var(&self, name: &str) -> (r: Option<u32>)
        ensures
            match r {
                Some(off) => cg_lookup_var(self.st().var_offsets, name@) == Some(off as int),
                None => cg_lookup_var(self.st().var_offsets, name@) is None,
            },
    {
        let mut j: usize = self.var_offsets.len();
        proof {
            assert(self.st().var_offsets.take(self.var_offsets@.len() as int)
                =~= self.st().var_offsets);
        }
        while j > 0
            invariant
                0 <= j <= self.var_offsets@.len(),
                cg_lookup_var(self.st().var_offsets, name@) == cg_lookup_var(
                    self.st().var_offsets.take(j as int),
                    name@,
                ),
            decreases j,
        {
            proof {
                assert(self.st().var_offsets.take(j as int).last() == (self.var_offsets@[j
                    - 1].0@, self.var_offsets@[j - 1].1 as int));
                assert(self.st().var_offsets.take(j as int).drop_last()
                    =~= self.st().var_offsets.take(j - 1));
            }
            if str_eq(self.var_offsets[j - 1].0.as_str(), name) {
                return Some(self.var_offsets[j - 1].1);
            }
            j -= 1;
        }
        proof {
            assert(self.st().var_offsets.take(0) =~= Seq::<(Seq<char>, int)>::empty());
        }
        None
    }

    /// Allocates a variable's slot the first time its name is seen, with an
    /// explicit overflow check against the fixed frame size.
    fn allocate_var(&mut self, name: &str) -> (r: Result<u32, CodegenError>)
        ensures
            match r {
                Ok(off) => cg_alloc_var(old(self).st(), name@) == Ok::<
                    (SpecCgState, int),
                    CodegenError,
                >((final(self).st(), off as int)),
                Err(e) => cg_alloc_var(old(self).st(), name@) == Err::<
                    (SpecCgState, int),
                    CodegenError,
                >(e) && final(self).st() == old(self).st(),
            },
    {
        match self.lookup_var(name) {
            Some(off) => Ok(off),
            None => {
                if self.next_var_offset <= 504 {
                    let off = self.next_var_offset;
                    self.var_offsets.push((String::from_str(name), off));
                    self.next_var_offset = off + 8;
                    proof {
                        assert(self.st() =~~= cg_alloc_var(old(self).st(), name@)->Ok_0.0);
                    }
                    Ok(off)
                } else {
                    Err(CodegenError::FrameOverflow)
                }
            },
        }
    }

    /// Takes a scratch register from the pool, or reports exhaustion.
    fn alloc_tmp(&mut self) -> (r: Result<u8, CodegenError>)
        ensures
            match r {
                Ok(reg) => cg_alloc_tmp(old(self).st()) == Ok::<
                    (SpecCgState, int),
                    CodegenError,
                >((final(self).st(), reg as int)),
                Err(e) => cg_alloc_tmp(old(self).st()) == Err::<
                    (SpecCgState, int),
                    CodegenError,
                >(e) && final(self).st() == old(self).st(),
            },
    {
        match self.temp_regs.pop() {
            Some(reg) => {
                proof {
                    assert(self.st() =~~= cg_alloc_tmp(old(self).st())->Ok_0.0);
                    assert(old(self).st().temp_regs.last() == reg as int);
                }
                Ok(reg)
            },
            None => Err(CodegenError::OutOfRegisters),
        }
    }

    /// Returns a scratch register to the pool.
    fn free_tmp(&mut self, reg: u8)
        ensures
            final(self).st() == cg_free_tmp(old(self).st(), reg as int),
    {
        self.temp_regs.push(reg);
        proof {
            assert(self.st() =~~= cg_free_tmp(old(self).st(), reg as int));
        }
    }

    fn emit_prologue(&mut self)
        ensures
            final(self).st() == cg_prologue(old(self).st()),
    {
        self.emit(String::from_str("\tmain:"));
        self.emit(String::from_str("\tstp x29, x30, [sp, #-16]!"));
        self.emit(String::from_str("\tmov x29, sp"));
        self.emit(String::from_str("\tsub sp, sp, #512"));
    }

    fn emit_epilogue(&mut self)
        ensures
            final(self).st() == cg_epilogue(old(self).st()),
    {
        self.emit(String::from_str("\tadd sp, sp, #512"));
        self.emit(String::from_str("\tldp x29, x30, [sp], #16"));
        self.emit(String::from_str("\tmov x0, #0"));
        self.emit(String::from_str("\tret"));
    }

    /// Generates code for an expression; the register holding its value,
    /// which the caller frees.
    #[verifier::rlimit(100)]
    fn gen_expr(&mut self, expr: &Expr) -> (r: Result<u8, CodegenError>)
        ensures
            match r {
                Ok(reg) => cg_gen_expr(old(self).st(), expr_view(*expr)) == Ok::<
                    (SpecCgState, int),
                    CodegenError,
                >((final(self).st(), reg as int)),
                Err(e) => cg_gen_expr(old(self).st(), expr_view(*expr)) == Err::<
                    (SpecCgState, int),
                    CodegenError,
                >(e),
            },
        decreases *expr,
    {
        match expr {
            Expr::IntegerLiteral(n) => {
                let reg = match self.alloc_tmp() {
                    Ok(reg) => reg,
                    Err(e) => {
                        return Err(e);
                    },
                };
                let value = i64_to_string(*n as i64);
                self.emit(cat4("\tmov ", reg_str(reg), ", #", value.as_str()));
                Ok(reg)
            },
            Expr::BooleanLiteral(b) => {
                let reg = match self.alloc_tmp() {
                    Ok(reg) => reg,
                    Err(e) => {
                        return Err(e);
                    },
                };
                self.emit(cat4("\tmov ", reg_str(reg), ", #", if *b {
                    "1"
                } else {
                    "0"
                }));
                Ok(reg)
            },
            Expr::StringLiteral(s) => {
                let label = self.intern_string(s.as_str());
                let reg = match self.alloc_tmp() {
                    Ok(reg) => reg,
                    Err(e) => {
                        return Err(e);
                    },
                };
                self.emit(cat4("\tadr ", reg_str(reg), ", ", label.as_str()));
                Ok(reg)
            },
            Expr::Identifier(name) => {
                let reg = match self.alloc_tmp() {
                    Ok(reg) => reg,
                    Err(e) => {
                        return Err(e);
                    },
                };
                match self.lookup_var(name.as_str()) {
                    Some(off) => {
                        let offs = u64_to_string(off as u64);
                        self.emit(cat5("\tldr ", reg_str(reg), ", [sp, #", offs.as_str(), "]"));
                    },
                    None => {
                        self.emit(cat3("\tmov ", reg_str(reg), ", #0"));
                    },
                }
                Ok(reg)
            },
            Expr::Assign { name, value } => {
                let vr = match self.gen_expr(value) {
                    Ok(reg) => reg,
                    Err(e) => {
                        return Err(e);
                    },
                };
                let off = match self.allocate_var(name.as_str()) {
                    Ok(off) => off,
                    Err(e) => {
                        return Err(e);
                    },
                };
                let offs = u64_to_string(off as u64);
                self.emit(cat5("\tstr ", reg_str(vr), ", [sp, #", offs.as_str(), "]"));
                Ok(vr)
            },
            Expr::Binary { left, op, right } => {
                let rl = match self.gen_expr(left) {
                    Ok(reg) => reg,
                    Err(e) => {
                        return Err(e);
                    },
                };
                let rr = match self.gen_expr(right) {
                    Ok(reg) => reg,
                    Err(e) => {
                        return Err(e);
                    },
                };
                match op {
                    BinOp::Add => {
                        self.emit(
                            cat6("\tadd ", reg_str(rl), ", ", reg_str(rl), ", ", reg_str(rr)),
                        );
                    },
                    BinOp::Sub => {
                        self.emit(
                            cat6("\tsub ", reg_str(rl), ", ", reg_str(rl), ", ", reg_str(rr)),
                        );
                    },
                    BinOp::GreaterThan => {
                        self.emit(cat4("\tcmp ", reg_str(rl), ", ", reg_str(rr)));
                        self.emit(cat3("\tcset ", reg_str(rl), ", gt"));
                    },
                    BinOp::LessThan => {
                        self.emit(cat4("\tcmp ", reg_str(rl), ", ", reg_str(rr)));
                        self.emit(cat3("\tcset ", reg_str(rl), ", lt"));
                    },
                }
                self.free_tmp(rr);
                Ok(rl)
            },
            Expr::Maybe => {
                let reg = match self.alloc_tmp() {
                    Ok(reg) => reg,
                    Err(e) => {
                        return Err(e);
                    },
                };
                self.emit(String::from_str("\tbl rand"));
                self.emit(cat3("\tand ", reg_str(reg), ", x0, #1"));
                Ok(reg)
            },
        }
    }

    /// Generates code for one statement.
    #[verifier::rlimit(100)]
    fn gen_stmt(&mut self, stmt: &Stmt) -> (r: Result<(), CodegenError>)
        ensures
            match r {
                Ok(_) => cg_gen_stmt(old(self).st(), stmt_view(*stmt)) == Ok::<
                    SpecCgState,
                    CodegenError,
                >(final(self).st()),
                Err(e) => cg_gen_stmt(old(self).st(), stmt_view(*stmt)) == Err::<
                    SpecCgState,
                    CodegenError,
                >(e),
            },
        decreases *stmt, 1int,
    {
        match stmt {
            Stmt::VarDeclaration { name, value } => {
                let off = match self.allocate_var(name.as_str()) {
                    Ok(off) => off,
                    Err(e) => {
                        return Err(e);
                    },
                };
                let reg = match self.gen_expr(value) {
                    Ok(reg) => reg,
                    Err(e) => {
                        return Err(e);
                    },
                };
                let offs = u64_to_string(off as u64);
                self.emit(cat5("\tstr ", reg_str(reg), ", [sp, #", offs.as_str(), "]"));
                self.free_tmp(reg);
                Ok(())
            },
            Stmt::Print(expr) => {
                match expr {
                    Expr::StringLiteral(s) => {
                        let label = self.intern_string(s.as_str());
                        self.emit(String::from_str("\tadr x0, fmt_str"));
                        self.emit(cat2("\tadr x1, ", label.as_str()));
                        self.emit(String::from_str("\tbl printf"));
                        Ok(())
                    },
                    _ => {
                        let reg = match self.gen_expr(expr) {
                            Ok(reg) => reg,
                            Err(e) => {
                                return Err(e);
                            },
                        };
                        self.emit(String::from_str("\tadr x0, fmt_int"));
                        self.emit(cat2("\tmov x1, ", reg_str(reg)));
                        self.emit(String::from_str("\tbl printf"));
                        self.free_tmp(reg);
                        Ok(())
                    },
                }
            },
            Stmt::If { condition, then_block, else_block } => {
                let cr = match self.gen_expr(condition) {
                    Ok(reg) => reg,
                    Err(e) => {
                        return Err(e);
                    },
                };
                let else_lbl = self.fresh_label("else");
                let end_lbl = self.fresh_label("end_if");
                self.emit(cat3("\tcmp ", reg_str(cr), ", #0"));
                self.emit(cat2("\tbeq ", else_lbl.as_str()));
                match self.gen_stmts(then_block) {
                    Ok(_) => {},
                    Err(e) => {
                        return Err(e);
                    },
                }
                self.emit(cat2("\tb ", end_lbl.as_str()));
                self.emit(cat3("\t", else_lbl.as_str(), ":"));
                if let Some(else_stmts) = else_block {
                    match self.gen_stmts(else_stmts) {
                        Ok(_) => {},
                        Err(e) => {
                            return Err(e);
                        },
                    }
                }
                self.emit(cat3("\t", end_lbl.as_str(), ":"));
                self.free_tmp(cr);
                Ok(())
            },
            Stmt::Block(stmts) => self.gen_stmts(stmts),
            Stmt::ExprStmt(expr) => {
                let reg = match self.gen_expr(expr) {
                    Ok(reg) => reg,
                    Err(e) => {
                        return Err(e);
                    },
                };
                self.free_tmp(reg);
                Ok(())
            },
            Stmt::Paywall(_) => {
                self.emit(String::from_str("\tadr x0, msg_pay"));
                self.emit(String::from_str("\tbl printf"));
                self.emit(String::from_str("\tadr x0, fmt_scan"));
                self.emit(String::from_str("\tadd x1, sp, #400"));
                self.emit(String::from_str("\tbl scanf"));
                self.emit(String::from_str("\tadd x0, sp, #400"));
                self.emit(String::from_str("\tadr x1, secret"));
                self.emit(String::from_str("\tbl strcmp"));
                let paid_lbl = self.fresh_label("paid");
                self.emit(String::from_str("\tcmp x0, #0"));
                self.emit(cat2("\tbeq ", paid_lbl.as_str()));
                self.emit(String::from_str("\tmov x0, #1"));
                self.emit(String::from_str("\tmov x8, #93"));
                self.emit(String::from_str("\tsvc #0"));
                self.emit(cat3("\t", paid_lbl.as_str(), ":"));
                Ok(())
            },
        }
    }

    /// Generates code for a statement list in order.
    fn gen_stmts(&mut self, stmts: &Vec<Stmt>) -> (r: Result<(), CodegenError>)
        ensures
            match r {
                Ok(_) => cg_gen_stmts(old(self).st(), stmts_view(stmts@)) == Ok::<
                    SpecCgState,
                    CodegenError,
                >(final(self).st()),
                Err(e) => cg_gen_stmts(old(self).st(), stmts_view(stmts@)) == Err::<
                    SpecCgState,
                    CodegenError,
                >(e),
            },
        decreases stmts@, stmts@.len() + 2,
    {
        let ghost ss = stmts_view(stmts@);
        let ghost target = cg_gen_stmts_from(old(self).st(), ss, 0);
        let mut i: usize = 0;
        while i < stmts.len()
            invariant
                0 <= i <= stmts@.len(),
                ss == stmts_view(stmts@),
                target == cg_gen_stmts_from(old(self).st(), ss, 0),
                cg_gen_stmts_from(self.st(), ss, i as int) == target,
            decreases stmts@.len() - i,
        {
            proof {
                assert(ss[i as int] == stmt_view(stmts@[i as int]));
            }
            match self.gen_stmt(&stmts[i]) {
                Ok(_) => {},
                Err(e) => {
                    return Err(e);
                },
            }
            i += 1;
        }
        Ok(())
    }

    /// Generates the whole program's assembly: the data section with the
    /// format strings and interned literals, then the text section with the
    /// prologue, the lowered statements, and the epilogue. Fails only on
    /// register-pool exhaustion or frame overflow.
    pub fn generate(self, stmts: &Vec<Stmt>) -> (r: Result<String, CodegenError>)
        ensures
            match r {
                Ok(text) => cg_generate_from(self.st(), stmts_view(stmts@)) == Ok::<
                    Seq<char>,
                    CodegenError,
                >(text@),
                Err(e) => cg_generate_from(self.st(), stmts_view(stmts@)) == Err::<
                    Seq<char>,
                    CodegenError,
                >(e),
            },
    {
        let mut cg = self;
        cg.emit_prologue();
        match cg.gen_stmts(stmts) {
            Ok(_) => {},
            Err(e) => {
                return Err(e);
            },
        }
        cg.emit_epilogue();
        let ghost fin = cg.st();

        // The data section: the fixed format and guard strings, then the
        // interned literals.
        let mut out = String::from_str("\t.data\n");
        out.append(r#"fmt_int: .asciz "%d\n""#);
        out.append("\n");
        out.append(r#"fmt_str: .asciz "%s\n""#);
        out.append("\n");
        out.append(r#"fmt_scan: .asciz "%s""#);
        out.append("\n");
        out.append(r#"msg_pay: .asciz "free trial over pew pew, type 'haha' to continue: ""#);
        out.append("\n");
        out.append(r#"secret:  .asciz "haha""#);
        out.append("\n");
        proof {
            assert(out@ == cg_data_head());
        }
        let ghost data_target = cg_data_entries(cg_data_head(), fin.data_strings, 0);
        let mut i: usize = 0;
        while i < cg.data_strings.len()
            invariant
                0 <= i <= cg.data_strings@.len(),
                fin == cg.st(),
                data_target == cg_data_entries(cg_data_head(), fin.data_strings, 0),
                cg_data_entries(out@, fin.data_strings, i as int) == data_target,
            decreases cg.data_strings@.len() - i,
        {
            out.append(cg.data_strings[i].0.as_str());
            out.append(": .asciz \"");
            out.append(cg.data_strings[i].1.as_str());
            out.append("\"");
            out.append("\n");
            i += 1;
        }

        // The text section.
        out.append("\n\t.text\n");
        out.append("\t.global main\n");
        let ghost instr_target = cg_instr_lines(
            cg_data_entries(cg_data_head(), fin.data_strings, 0) + "\n\t.text\n"@
                + "\t.global main\n"@,
            fin.instrs,
            0,
        );
        let mut j: usize = 0;
        while j < cg.instrs.len()
            invariant
                0 <= j <= cg.instrs@.len(),
                fin == cg.st(),
                instr_target == cg_instr_lines(
                    cg_data_entries(cg_data_head(), fin.data_strings, 0) + "\n\t.text\n"@
                        + "\t.global main\n"@,
                    fin.instrs,
                    0,
                ),
                cg_instr_lines(out@, fin.instrs, j as int) == instr_target,
            decreases cg.instrs@.len() - j,
        {
            out.append(cg.instrs[j].as_str());
            out.append("\n");
            j += 1;
        }
        proof {
            assert(out@ == cg_assemble(fin));
        }
        Ok(out)
    }
}

} // verus!
