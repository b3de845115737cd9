use vstd::prelude::*;
use vstd::string::*;

use crate::codegen::{emit, is_text, line, result_view, texts, unsupported, CompileError, SCompileError};
use crate::compile_text::{hex8, hex8_text, parse_u64, parse_u64_text};
use crate::lowering::err;
use crate::names::NameMap;
use crate::syntax::{
    proc_term_kind, proc_term_kind_text, statement_kind, statement_kind_text, term_kind,
    term_kind_text, ItemProc, ItemProcBlock, ProcTerm, ProcTermApply, Statement, Statements, Term,
    TermApply,
};
use crate::text::{decimal, nat_to_string};

verus! {

broadcast use vstd::std_specs::vec::group_vec_axioms;

// The model of kernel compilation. Compiling a term appends to the kernel text, may give
// names registers, and takes fresh registers of three kinds: `%rd` (64 bits), `%r`
// (32 bits) and `%f` (single precision).

/// What compiling a kernel changes.
pub struct PtxState {
    pub out: Seq<char>,
    pub regs: Map<Seq<char>, Seq<char>>,
    pub vars: Map<Seq<char>, i32>,
    pub rd: nat,
    pub r: nat,
    pub f: nat,
}

/// The state after a term, and the register that holds its value or the error.
pub struct PtxOutcome {
    pub state: PtxState,
    pub result: Result<Seq<char>, SCompileError>,
}

/// The state after a statement, and whether it compiled.
pub struct PtxStep {
    pub state: PtxState,
    pub result: Result<(), SCompileError>,
}

pub open spec fn p_ok(s: PtxState, reg: Seq<char>) -> PtxOutcome {
    PtxOutcome { state: s, result: Ok(reg) }
}

pub open spec fn p_fail(s: PtxState, e: SCompileError) -> PtxOutcome {
    PtxOutcome { state: s, result: Err(e) }
}

pub open spec fn step_ok(s: PtxState) -> PtxStep {
    PtxStep { state: s, result: Ok(()) }
}

pub open spec fn step_fail(s: PtxState, e: SCompileError) -> PtxStep {
    PtxStep { state: s, result: Err(e) }
}

/// The state with one more instruction line.
pub open spec fn p_emit(s: PtxState, text: Seq<char>) -> PtxState {
    PtxState { out: s.out + line(text), regs: s.regs, vars: s.vars, rd: s.rd, r: s.r, f: s.f }
}

pub open spec fn rd_reg(n: nat) -> Seq<char> {
    "%rd"@ + decimal(n)
}

pub open spec fn r_reg(n: nat) -> Seq<char> {
    "%r"@ + decimal(n)
}

pub open spec fn f_reg(n: nat) -> Seq<char> {
    "%f"@ + decimal(n)
}

/// Register freshness: registers of one kind with different numbers have different names,
/// so a register numbered from a counter that only grows is never one handed out before.
pub proof fn lemma_registers_distinct(m: nat, n: nat)
    requires
        m != n,
    ensures
        rd_reg(m) != rd_reg(n),
        r_reg(m) != r_reg(n),
        f_reg(m) != f_reg(n),
{
    let p1 = "%rd"@;
    let p2 = "%r"@;
    let p3 = "%f"@;
    if rd_reg(m) == rd_reg(n) {
        assert(rd_reg(m).subrange(p1.len() as int, rd_reg(m).len() as int) =~= decimal(m));
        assert(rd_reg(n).subrange(p1.len() as int, rd_reg(n).len() as int) =~= decimal(n));
        crate::text::lemma_decimal_injective(m, n);
    }
    if r_reg(m) == r_reg(n) {
        assert(r_reg(m).subrange(p2.len() as int, r_reg(m).len() as int) =~= decimal(m));
        assert(r_reg(n).subrange(p2.len() as int, r_reg(n).len() as int) =~= decimal(n));
        crate::text::lemma_decimal_injective(m, n);
    }
    if f_reg(m) == f_reg(n) {
        assert(f_reg(m).subrange(p3.len() as int, f_reg(m).len() as int) =~= decimal(m));
        assert(f_reg(n).subrange(p3.len() as int, f_reg(n).len() as int) =~= decimal(n));
        crate::text::lemma_decimal_injective(m, n);
    }
}

pub open spec fn take_rd(s: PtxState) -> PtxState {
    PtxState { out: s.out, regs: s.regs, vars: s.vars, rd: s.rd + 1, r: s.r, f: s.f }
}

pub open spec fn take_r(s: PtxState) -> PtxState {
    PtxState { out: s.out, regs: s.regs, vars: s.vars, rd: s.rd, r: s.r + 1, f: s.f }
}

pub open spec fn take_f(s: PtxState) -> PtxState {
    PtxState { out: s.out, regs: s.regs, vars: s.vars, rd: s.rd, r: s.r, f: s.f + 1 }
}

/// The special register that a thread-index builtin reads.
pub open spec fn special_register(b: Seq<char>) -> Option<Seq<char>> {
    if b == "ctaid_x"@ {
        Some("%ctaid.x"@)
    } else if b == "ntid_x"@ {
        Some("%ntid.x"@)
    } else if b == "tid_x"@ {
        Some("%tid.x"@)
    } else {
        None
    }
}

/// Reads a special register into a fresh `%r` register and widens it into a fresh `%rd`.
pub open spec fn read_special(s: PtxState, sreg: Seq<char>) -> PtxOutcome {
    let r = r_reg(s.r);
    let s1 = p_emit(take_r(s), "mov.u32 "@ + r + ", "@ + sreg + ";"@);
    let d = rd_reg(s1.rd);
    p_ok(p_emit(take_rd(s1), "cvt.u64.u32 "@ + d + ", "@ + r + ";"@), d)
}

/// A name: a thread-index builtin, or a name bound to a register.
pub open spec fn ptx_variable(
    bs: Map<Seq<char>, String>,
    s: PtxState,
    name: Seq<char>,
    undefined: Seq<char>,
) -> PtxOutcome {
    if bs.contains_key(name) && special_register(bs[name]@) is Some {
        read_special(s, special_register(bs[name]@)->0)
    } else if s.regs.contains_key(name) {
        p_ok(s, s.regs[name])
    } else if bs.contains_key(name) {
        p_fail(s, err("Unknown PTX variable: "@ + name))
    } else {
        p_fail(s, err(undefined + name))
    }
}

/// An integer literal, moved into a fresh `%rd` register.
pub open spec fn ptx_number(s: PtxState, text: Seq<char>) -> PtxOutcome {
    match parse_u64(text) {
        None => p_fail(s, err("Invalid number: "@ + text)),
        Some(v) => {
            let d = rd_reg(s.rd);
            p_ok(p_emit(take_rd(s), "mov.u64 "@ + d + ", "@ + decimal(v as nat) + ";"@), d)
        },
    }
}

/// The instruction of an arithmetic builtin, and how many operands it takes.
pub open spec fn builtin_op(b: Seq<char>) -> Option<(Seq<char>, nat)> {
    if b == "u64_add"@ {
        Some(("add.u64"@, 2))
    } else if b == "u64_sub"@ {
        Some(("sub.u64"@, 2))
    } else if b == "u64_mul"@ {
        Some(("mul.lo.u64"@, 2))
    } else if b == "u64_div"@ {
        Some(("div.u64"@, 2))
    } else if b == "u64_mod"@ {
        Some(("rem.u64"@, 2))
    } else if b == "u64_to_f32"@ {
        Some(("cvt.rn.f32.u64"@, 1))
    } else if b == "f32_to_u64"@ {
        Some(("cvt.rzi.u64.f32"@, 1))
    } else if b == "f32_mul"@ {
        Some(("mul.f32"@, 2))
    } else if b == "f32_div"@ {
        Some(("div.approx.f32"@, 2))
    } else {
        None
    }
}

/// Whether a builtin's result is a float, held in an `%f` register.
pub open spec fn float_result(b: Seq<char>) -> bool {
    b == "u64_to_f32"@ || b == "f32_mul"@ || b == "f32_div"@
}

/// The message for a builtin called with the wrong number of arguments.
pub open spec fn arity_message(b: Seq<char>, n: nat) -> Seq<char> {
    "__"@ + b + (if n == 2 {
        " requires two arguments"@
    } else {
        " requires one argument"@
    })
}

/// The instruction of a builtin on its operands, into a fresh register of its result's kind.
pub open spec fn op_result(s: PtxState, b: Seq<char>, instr: Seq<char>, operands: Seq<char>) -> PtxOutcome {
    if float_result(b) {
        let reg = f_reg(s.f);
        p_ok(p_emit(take_f(s), instr + " "@ + reg + ", "@ + operands + ";"@), reg)
    } else {
        let reg = rd_reg(s.rd);
        p_ok(p_emit(take_rd(s), instr + " "@ + reg + ", "@ + operands + ";"@), reg)
    }
}

/// The single-precision bits of a float literal; a text that reads as no float gives 0.
pub open spec fn literal_bits(bits: Option<u32>) -> u32 {
    match bits {
        Some(b) => b,
        None => 0,
    }
}

/// A float literal, moved into a fresh `%f` register by its bits.
pub open spec fn float_literal(s: PtxState, bits: u32) -> PtxOutcome {
    let reg = f_reg(s.f);
    p_ok(p_emit(take_f(s), "mov.b32 "@ + reg + ", "@ + hex8(bits) + ";"@), reg)
}

proof fn lemma_builtin_op_table()
    ensures
        builtin_op("u64_add"@) == Some(("add.u64"@, 2nat)),
        builtin_op("u64_sub"@) == Some(("sub.u64"@, 2nat)),
        builtin_op("u64_mul"@) == Some(("mul.lo.u64"@, 2nat)),
        builtin_op("u64_div"@) == Some(("div.u64"@, 2nat)),
        builtin_op("u64_mod"@) == Some(("rem.u64"@, 2nat)),
        !float_result("u64_add"@),
        !float_result("u64_sub"@),
        !float_result("u64_mul"@),
        !float_result("u64_div"@),
        !float_result("u64_mod"@),
{
    reveal_strlit("u64_add");
    reveal_strlit("u64_sub");
    reveal_strlit("u64_mul");
    reveal_strlit("u64_div");
    reveal_strlit("u64_mod");
    reveal_strlit("u64_to_f32");
    reveal_strlit("f32_mul");
    reveal_strlit("f32_div");
    assert("u64_sub"@[4] != "u64_add"@[4]);
    assert("u64_mul"@[4] != "u64_add"@[4]);
    assert("u64_mul"@[4] != "u64_sub"@[4]);
    assert("u64_div"@[4] != "u64_add"@[4]);
    assert("u64_div"@[4] != "u64_sub"@[4]);
    assert("u64_div"@[4] != "u64_mul"@[4]);
    assert("u64_mod"@[4] != "u64_add"@[4]);
    assert("u64_mod"@[4] != "u64_sub"@[4]);
    assert("u64_mod"@[5] != "u64_mul"@[5]);
    assert("u64_mod"@[4] != "u64_div"@[4]);
    assert("u64_add"@.len() != "u64_to_f32"@.len());
    assert("u64_sub"@.len() != "u64_to_f32"@.len());
    assert("u64_mul"@.len() != "u64_to_f32"@.len());
    assert("u64_div"@.len() != "u64_to_f32"@.len());
    assert("u64_mod"@.len() != "u64_to_f32"@.len());
    assert("u64_add"@[0] != "f32_mul"@[0]);
    assert("u64_sub"@[0] != "f32_mul"@[0]);
    assert("u64_mul"@[0] != "f32_mul"@[0]);
    assert("u64_div"@[0] != "f32_mul"@[0]);
    assert("u64_mod"@[0] != "f32_mul"@[0]);
    assert("u64_add"@[0] != "f32_div"@[0]);
    assert("u64_sub"@[0] != "f32_div"@[0]);
    assert("u64_mul"@[0] != "f32_div"@[0]);
    assert("u64_div"@[0] != "f32_div"@[0]);
    assert("u64_mod"@[0] != "f32_div"@[0]);
}

proof fn lemma_ptx_binary_op(bs: Map<Seq<char>, String>, s: PtxState, a: ProcTermApply, name: Seq<char>, instr: Seq<char>)
    requires
        *a.f matches ProcTerm::Variable(v) && v.variable@ == name,
        bs.contains_key(name),
        builtin_op(bs[name]@) == Some((instr, 2nat)),
        !float_result(bs[name]@),
        ptx_proc_apply_c(bs, s, a).result is Ok,
    ensures
        a.args@.len() == 2,
        ({
            let o1 = ptx_proc_term_c(bs, s, a.args@[0]);
            let o2 = ptx_proc_term_c(bs, o1.state, a.args@[1]);
            let reg = rd_reg(o2.state.rd);
            &&& o1.result is Ok
            &&& o2.result is Ok
            &&& ptx_proc_apply_c(bs, s, a).result == Ok::<Seq<char>, SCompileError>(reg)
            &&& ptx_proc_apply_c(bs, s, a).state.out == o2.state.out + line(
                instr + " "@ + reg + ", "@ + (o1.result->Ok_0 + ", "@ + o2.result->Ok_0) + ";"@,
            )
        }),
{
}

/// In a kernel, `u64_mod` takes the remainder of its first operand by its second
/// (`rem.u64`) into a fresh `%rd` register, distinct from the quotient that `u64_div` takes.
pub proof fn lemma_ptx_u64_mod_code(bs: Map<Seq<char>, String>, s: PtxState, a: ProcTermApply, name: Seq<char>)
    requires
        *a.f matches ProcTerm::Variable(v) && v.variable@ == name,
        bs.contains_key(name),
        bs[name]@ == "u64_mod"@,
        ptx_proc_apply_c(bs, s, a).result is Ok,
    ensures
        a.args@.len() == 2,
        ({
            let o1 = ptx_proc_term_c(bs, s, a.args@[0]);
            let o2 = ptx_proc_term_c(bs, o1.state, a.args@[1]);
            let reg = rd_reg(o2.state.rd);
            &&& ptx_proc_apply_c(bs, s, a).result == Ok::<Seq<char>, SCompileError>(reg)
            &&& ptx_proc_apply_c(bs, s, a).state.out == o2.state.out + line(
                "rem.u64"@ + " "@ + reg + ", "@ + (o1.result->Ok_0 + ", "@ + o2.result->Ok_0) + ";"@,
            )
        }),
{
    lemma_builtin_op_table();
    lemma_ptx_binary_op(bs, s, a, name, "rem.u64"@);
}

/// In a kernel, `u64_div` takes the quotient of its operands (`div.u64`) into a fresh `%rd`
/// register.
pub proof fn lemma_ptx_u64_div_code(bs: Map<Seq<char>, String>, s: PtxState, a: ProcTermApply, name: Seq<char>)
    requires
        *a.f matches ProcTerm::Variable(v) && v.variable@ == name,
        bs.contains_key(name),
        bs[name]@ == "u64_div"@,
        ptx_proc_apply_c(bs, s, a).result is Ok,
    ensures
        a.args@.len() == 2,
        ({
            let o1 = ptx_proc_term_c(bs, s, a.args@[0]);
            let o2 = ptx_proc_term_c(bs, o1.state, a.args@[1]);
            let reg = rd_reg(o2.state.rd);
            &&& ptx_proc_apply_c(bs, s, a).result == Ok::<Seq<char>, SCompileError>(reg)
            &&& ptx_proc_apply_c(bs, s, a).state.out == o2.state.out + line(
                "div.u64"@ + " "@ + reg + ", "@ + (o1.result->Ok_0 + ", "@ + o2.result->Ok_0) + ";"@,
            )
        }),
{
    lemma_builtin_op_table();
    lemma_ptx_binary_op(bs, s, a, name, "div.u64"@);
}

/// In a kernel, `u64_add` adds its operands (`add.u64`) into a fresh `%rd` register.
pub proof fn lemma_ptx_u64_add_code(bs: Map<Seq<char>, String>, s: PtxState, a: ProcTermApply, name: Seq<char>)
    requires
        *a.f matches ProcTerm::Variable(v) && v.variable@ == name,
        bs.contains_key(name),
        bs[name]@ == "u64_add"@,
        ptx_proc_apply_c(bs, s, a).result is Ok,
    ensures
        a.args@.len() == 2,
        ({
            let o1 = ptx_proc_term_c(bs, s, a.args@[0]);
            let o2 = ptx_proc_term_c(bs, o1.state, a.args@[1]);
            let reg = rd_reg(o2.state.rd);
            &&& ptx_proc_apply_c(bs, s, a).result == Ok::<Seq<char>, SCompileError>(reg)
            &&& ptx_proc_apply_c(bs, s, a).state.out == o2.state.out + line(
                "add.u64"@ + " "@ + reg + ", "@ + (o1.result->Ok_0 + ", "@ + o2.result->Ok_0) + ";"@,
            )
        }),
{
    lemma_builtin_op_table();
    lemma_ptx_binary_op(bs, s, a, name, "add.u64"@);
}

/// In a kernel, `u64_sub` subtracts its second operand from its first (`sub.u64`) into a
/// fresh `%rd` register.
pub proof fn lemma_ptx_u64_sub_code(bs: Map<Seq<char>, String>, s: PtxState, a: ProcTermApply, name: Seq<char>)
    requires
        *a.f matches ProcTerm::Variable(v) && v.variable@ == name,
        bs.contains_key(name),
        bs[name]@ == "u64_sub"@,
        ptx_proc_apply_c(bs, s, a).result is Ok,
    ensures
        a.args@.len() == 2,
        ({
            let o1 = ptx_proc_term_c(bs, s, a.args@[0]);
            let o2 = ptx_proc_term_c(bs, o1.state, a.args@[1]);
            let reg = rd_reg(o2.state.rd);
            &&& ptx_proc_apply_c(bs, s, a).result == Ok::<Seq<char>, SCompileError>(reg)
            &&& ptx_proc_apply_c(bs, s, a).state.out == o2.state.out + line(
                "sub.u64"@ + " "@ + reg + ", "@ + (o1.result->Ok_0 + ", "@ + o2.result->Ok_0) + ";"@,
            )
        }),
{
    lemma_builtin_op_table();
    lemma_ptx_binary_op(bs, s, a, name, "sub.u64"@);
}

/// In a kernel, `u64_mul` multiplies its operands, keeping the low 64 bits (`mul.lo.u64`),
/// into a fresh `%rd` register.
pub proof fn lemma_ptx_u64_mul_code(bs: Map<Seq<char>, String>, s: PtxState, a: ProcTermApply, name: Seq<char>)
    requires
        *a.f matches ProcTerm::Variable(v) && v.variable@ == name,
        bs.contains_key(name),
        bs[name]@ == "u64_mul"@,
        ptx_proc_apply_c(bs, s, a).result is Ok,
    ensures
        a.args@.len() == 2,
        ({
            let o1 = ptx_proc_term_c(bs, s, a.args@[0]);
            let o2 = ptx_proc_term_c(bs, o1.state, a.args@[1]);
            let reg = rd_reg(o2.state.rd);
            &&& ptx_proc_apply_c(bs, s, a).result == Ok::<Seq<char>, SCompileError>(reg)
            &&& ptx_proc_apply_c(bs, s, a).state.out == o2.state.out + line(
                "mul.lo.u64"@ + " "@ + reg + ", "@ + (o1.result->Ok_0 + ", "@ + o2.result->Ok_0) + ";"@,
            )
        }),
{
    lemma_builtin_op_table();
    lemma_ptx_binary_op(bs, s, a, name, "mul.lo.u64"@);
}

/// A procedure term of a kernel.
pub open spec fn ptx_proc_term_c(bs: Map<Seq<char>, String>, s: PtxState, t: ProcTerm) -> PtxOutcome
    decreases t, 0int,
{
    match t {
        ProcTerm::Variable(v) => ptx_variable(bs, s, v.variable@, "Undefined PTX variable: "@),
        ProcTerm::Number(n) => ptx_number(s, n.number@),
        ProcTerm::Apply(a) => ptx_proc_apply_c(bs, s, a),
        ProcTerm::Paren(p) => ptx_proc_term_c(bs, s, *p.proc_term),
        _ => p_fail(s, err("PTX proc term not implemented: "@ + proc_term_kind(t))),
    }
}

/// A call in a kernel: of an arithmetic builtin, of `f32` on a literal, or of anything else,
/// whose function and arguments are compiled and whose value is the function's register.
pub open spec fn ptx_proc_apply_c(bs: Map<Seq<char>, String>, s: PtxState, a: ProcTermApply) -> PtxOutcome
    decreases a, a.args@.len() + 2,
{
    match *a.f {
        ProcTerm::Variable(v) => if bs.contains_key(v.variable@) {
            let b = bs[v.variable@]@;
            match builtin_op(b) {
                Some((instr, n)) => ptx_proc_op_c(bs, s, a, b, instr, n),
                None => if b == "f32"@ {
                    ptx_proc_f32_c(s, a)
                } else {
                    p_fail(s, err("Unknown PTX builtin: "@ + b))
                },
            }
        } else {
            ptx_proc_call_c(bs, s, a)
        },
        _ => ptx_proc_call_c(bs, s, a),
    }
}

/// An arithmetic builtin on its `n` operands.
pub open spec fn ptx_proc_op_c(
    bs: Map<Seq<char>, String>,
    s: PtxState,
    a: ProcTermApply,
    b: Seq<char>,
    instr: Seq<char>,
    n: nat,
) -> PtxOutcome
    decreases a, a.args@.len() + 1,
{
    let args = a.args@;
    if args.len() != n || n == 0 {
        p_fail(s, err(arity_message(b, n)))
    } else {
        let o1 = ptx_proc_term_c(bs, s, args[0]);
        match o1.result {
            Err(_) => o1,
            Ok(r1) => if n == 2 {
                let o2 = ptx_proc_term_c(bs, o1.state, args[1]);
                match o2.result {
                    Err(_) => o2,
                    Ok(r2) => op_result(o2.state, b, instr, r1 + ", "@ + r2),
                }
            } else {
                op_result(o1.state, b, instr, r1)
            },
        }
    }
}

/// `f32` on a number literal.
pub open spec fn ptx_proc_f32_c(s: PtxState, a: ProcTermApply) -> PtxOutcome {
    if a.args@.len() != 1 {
        p_fail(s, err("f32 requires one argument"@))
    } else {
        match a.args@[0] {
            ProcTerm::Number(num) => float_literal(s, literal_bits(num.float_bits)),
            _ => p_fail(s, err("f32 requires a number literal"@)),
        }
    }
}

pub open spec fn ptx_proc_call_c(bs: Map<Seq<char>, String>, s: PtxState, a: ProcTermApply) -> PtxOutcome
    decreases a, a.args@.len() + 1,
{
    let o = ptx_proc_term_c(bs, s, *a.f);
    match o.result {
        Err(_) => o,
        Ok(reg) => {
            let o2 = ptx_proc_args_c(bs, o.state, a, 0);
            match o2.result {
                Err(_) => o2,
                Ok(_) => p_ok(o2.state, reg),
            }
        },
    }
}

/// The arguments `a.args[i..]`, one after another.
pub open spec fn ptx_proc_args_c(bs: Map<Seq<char>, String>, s: PtxState, a: ProcTermApply, i: int) -> PtxOutcome
    decreases a, a.args@.len() - i,
{
    if i < 0 || i >= a.args@.len() {
        p_ok(s, Seq::empty())
    } else {
        let o = ptx_proc_term_c(bs, s, a.args@[i]);
        match o.result {
            Err(_) => o,
            Ok(_) => ptx_proc_args_c(bs, o.state, a, i + 1),
        }
    }
}

/// A term of the type language in a kernel; as a procedure term.
pub open spec fn ptx_term_c(bs: Map<Seq<char>, String>, s: PtxState, t: Term) -> PtxOutcome
    decreases t, 0int,
{
    match t {
        Term::Variable(v) => ptx_variable(bs, s, v.variable@, "Undefined variable: "@),
        Term::Number(n) => ptx_number(s, n.number@),
        Term::Apply(a) => ptx_apply_c(bs, s, a),
        Term::Paren(p) => ptx_term_c(bs, s, *p.term),
        _ => p_fail(s, err("PTX term not implemented: "@ + term_kind(t))),
    }
}

pub open spec fn ptx_apply_c(bs: Map<Seq<char>, String>, s: PtxState, a: TermApply) -> PtxOutcome
    decreases a, a.args@.len() + 2,
{
    match *a.f {
        Term::Variable(v) => if bs.contains_key(v.variable@) {
            let b = bs[v.variable@]@;
            match builtin_op(b) {
                Some((instr, n)) => ptx_op_c(bs, s, a, b, instr, n),
                None => if b == "f32"@ {
                    ptx_f32_c(s, a)
                } else {
                    p_fail(s, err("Unknown PTX builtin: "@ + b))
                },
            }
        } else {
            ptx_call_c(bs, s, a)
        },
        _ => ptx_call_c(bs, s, a),
    }
}

/// An arithmetic builtin on its `n` operands.
pub open spec fn ptx_op_c(
    bs: Map<Seq<char>, String>,
    s: PtxState,
    a: TermApply,
    b: Seq<char>,
    instr: Seq<char>,
    n: nat,
) -> PtxOutcome
    decreases a, a.args@.len() + 1,
{
    let args = a.args@;
    if args.len() != n || n == 0 {
        p_fail(s, err(arity_message(b, n)))
    } else {
        let o1 = ptx_term_c(bs, s, args[0]);
        match o1.result {
            Err(_) => o1,
            Ok(r1) => if n == 2 {
                let o2 = ptx_term_c(bs, o1.state, args[1]);
                match o2.result {
                    Err(_) => o2,
                    Ok(r2) => op_result(o2.state, b, instr, r1 + ", "@ + r2),
                }
            } else {
                op_result(o1.state, b, instr, r1)
            },
        }
    }
}

/// `f32` on a number literal.
pub open spec fn ptx_f32_c(s: PtxState, a: TermApply) -> PtxOutcome {
    if a.args@.len() != 1 {
        p_fail(s, err("f32 requires one argument"@))
    } else {
        match a.args@[0] {
            Term::Number(num) => float_literal(s, literal_bits(num.float_bits)),
            _ => p_fail(s, err("f32 requires a number literal"@)),
        }
    }
}

pub open spec fn ptx_call_c(bs: Map<Seq<char>, String>, s: PtxState, a: TermApply) -> PtxOutcome
    decreases a, a.args@.len() + 1,
{
    let o = ptx_term_c(bs, s, *a.f);
    match o.result {
        Err(_) => o,
        Ok(reg) => {
            let o2 = ptx_args_c(bs, o.state, a, 0);
            match o2.result {
                Err(_) => o2,
                Ok(_) => p_ok(o2.state, reg),
            }
        },
    }
}

pub open spec fn ptx_args_c(bs: Map<Seq<char>, String>, s: PtxState, a: TermApply, i: int) -> PtxOutcome
    decreases a, a.args@.len() - i,
{
    if i < 0 || i >= a.args@.len() {
        p_ok(s, Seq::empty())
    } else {
        let o = ptx_term_c(bs, s, a.args@[i]);
        match o.result {
            Err(_) => o,
            Ok(_) => ptx_args_c(bs, o.state, a, i + 1),
        }
    }
}

/// Where each field of the kernel's array parameter lives: one device pointer per field.
pub open spec fn field_pointer(field: Seq<char>) -> Option<Seq<char>> {
    if field == "r"@ {
        Some("%rd1"@)
    } else if field == "g"@ {
        Some("%rd2"@)
    } else if field == "b"@ {
        Some("%rd3"@)
    } else {
        None
    }
}

/// The state after `name` was bound to the register `reg`: the next variable number goes
/// to the name too.
pub open spec fn bind_register(s: PtxState, name: Seq<char>, reg: Seq<char>) -> PtxState {
    PtxState {
        out: s.out,
        regs: s.regs.insert(name, reg),
        vars: s.vars.insert(name, s.vars.dom().len() as i32),
        rd: s.rd,
        r: s.r,
        f: s.f,
    }
}

/// The store of `value` at element `index` of the field behind `pointer`.
pub open spec fn field_store(s: PtxState, index: Seq<char>, value: Seq<char>, pointer: Seq<char>) -> PtxState {
    let t = rd_reg(s.rd);
    let a = rd_reg(s.rd + 1);
    let s1 = p_emit(take_rd(s), "mul.lo.u64 "@ + t + ", "@ + index + ", 8;"@);
    let s2 = p_emit(take_rd(s1), "add.u64 "@ + a + ", "@ + pointer + ", "@ + t + ";"@);
    p_emit(s2, "st.global.u64 ["@ + a + "], "@ + value + ";"@)
}

/// A statement of a kernel: a `let`, or a store into a field of the array parameter.
pub open spec fn ptx_statement_c(bs: Map<Seq<char>, String>, s: PtxState, st: Statement) -> PtxStep {
    match st {
        Statement::Let(l) => {
            let o = ptx_proc_term_c(bs, s, *l.value);
            match o.result {
                Err(e) => step_fail(o.state, e),
                Ok(reg) => step_ok(bind_register(o.state, l.variable@, reg)),
            }
        },
        Statement::FieldAssign(fa) => match fa.field_access.index {
            None => step_fail(s, err("Field assignment without index not supported"@)),
            Some(index) => {
                let o1 = ptx_proc_term_c(bs, s, *index);
                match o1.result {
                    Err(e) => step_fail(o1.state, e),
                    Ok(ir) => {
                        let o2 = ptx_proc_term_c(bs, o1.state, *fa.value);
                        match o2.result {
                            Err(e) => step_fail(o2.state, e),
                            Ok(vr) => match field_pointer(fa.field_access.field@) {
                                None => step_fail(o2.state, err("Unknown field: "@ + fa.field_access.field@)),
                                Some(p) => step_ok(field_store(o2.state, ir, vr, p)),
                            },
                        }
                    },
                }
            },
        },
        _ => step_fail(s, err("PTX statement not implemented: "@ + statement_kind(st))),
    }
}

/// The statements of a kernel, in order, up to the first that fails.
pub open spec fn ptx_statements_c(bs: Map<Seq<char>, String>, s: PtxState, ss: Statements) -> PtxStep
    decreases ss,
{
    match ss {
        Statements::Then(t) => {
            let st = ptx_statement_c(bs, s, *t.head);
            match st.result {
                Err(_) => st,
                Ok(_) => ptx_statements_c(bs, st.state, *t.tail),
            }
        },
        Statements::Statement(b) => ptx_statement_c(bs, s, *b),
        Statements::Nil => step_ok(s),
    }
}

pub open spec fn statement_size(st: Statement) -> nat {
    match st {
        Statement::Let(l) => proc_term_size(*l.value),
        Statement::FieldAssign(fa) => match fa.field_access.index {
            None => 0,
            Some(index) => proc_term_size(*index) + proc_term_size(*fa.value) + 2,
        },
        _ => 0,
    }
}

pub open spec fn statements_size(ss: Statements) -> nat
    decreases ss,
{
    match ss {
        Statements::Then(t) => statement_size(*t.head) + statements_size(*t.tail),
        Statements::Statement(b) => statement_size(*b),
        Statements::Nil => 0,
    }
}

/// The register declarations of a kernel body, and the loads of its parameters.
pub open spec fn block_prologue(has_params: bool) -> Seq<char> {
    "    .reg .b64 %rd<100>;\n"@ + "    .reg .b32 %r<100>;\n"@ + "    .reg .b32 %f<100>;\n"@ + "\n"@ + (if has_params {
        "    ld.param.u64 %rd1, [ps_r];\n"@ + "    ld.param.u64 %rd2, [ps_g];\n"@
            + "    ld.param.u64 %rd3, [ps_b];\n"@ + "    cvta.to.global.u64 %rd1, %rd1;\n"@
            + "    cvta.to.global.u64 %rd2, %rd2;\n"@ + "    cvta.to.global.u64 %rd3, %rd3;\n"@ + "\n"@
    } else {
        Seq::empty()
    })
}

pub open spec fn with_out(s: PtxState, out: Seq<char>) -> PtxState {
    PtxState { out: out, regs: s.regs, vars: s.vars, rd: s.rd, r: s.r, f: s.f }
}

/// A kernel body.
pub open spec fn ptx_block_c(bs: Map<Seq<char>, String>, s: PtxState, block: ItemProcBlock, has_params: bool) -> PtxStep {
    ptx_statements_c(bs, with_out(s, s.out + block_prologue(has_params)), block.statements)
}

/// The names of a procedure's parameters, after those in `acc`: the variable of each
/// dependent arrow, and `param_i`, `i` the number of names before it, for each arrow from a
/// type other than `()`.
pub open spec fn proc_params(ty: Term, acc: Seq<Seq<char>>) -> Seq<Seq<char>>
    decreases ty,
{
    match ty {
        Term::ArrowDep(d) => proc_params(*d.to, acc.push(d.from.variable@)),
        Term::ArrowNodep(n) => match *n.from {
            Term::Unit(_) => proc_params(*n.to, acc),
            _ => proc_params(*n.to, acc.push("param_"@ + decimal(acc.len()))),
        },
        _ => acc,
    }
}

/// The parameter declarations of a kernel: none, or the three field pointers of one array.
pub open spec fn kernel_params(n: nat) -> Result<Seq<char>, SCompileError> {
    if n == 0 {
        Ok(Seq::empty())
    } else if n == 1 {
        Ok("    .param .u64 ps_r,\n"@ + "    .param .u64 ps_g,\n"@ + "    .param .u64 ps_b\n"@)
    } else {
        Err(err("PTX kernels with multiple parameters not yet supported"@))
    }
}

pub open spec fn kernel_head(name: Seq<char>) -> Seq<char> {
    "    \t// .globl\tf\n"@ + ".visible .entry "@ + name + "(\n"@
}

/// A procedure compiled as a kernel. Its registers are numbered afresh.
pub open spec fn ptx_proc_c(bs: Map<Seq<char>, String>, s: PtxState, p: ItemProc) -> PtxStep {
    let s0 = PtxState { out: s.out + kernel_head(p.name@), regs: Map::empty(), vars: s.vars, rd: 4, r: 1, f: 1 };
    let n = proc_params(p.ty, Seq::empty()).len();
    match kernel_params(n) {
        Err(e) => step_fail(s0, e),
        Ok(decl) => {
            let b = ptx_block_c(bs, with_out(s0, s0.out + decl + ")\n{\n"@), p.proc_block, n > 0);
            match b.result {
                Err(_) => b,
                Ok(_) => step_ok(PtxState {
                    out: b.state.out + "    ret;\n"@ + "}\n\n"@,
                    regs: b.state.regs,
                    vars: Map::empty(),
                    rd: b.state.rd,
                    r: b.state.r,
                    f: b.state.f,
                }),
            }
        },
    }
}

// How many registers of each kind compiling a term may take: at most one per node, but
// for a thread-index read, which takes one `%r` and one `%rd`.

pub open spec fn proc_term_size(t: ProcTerm) -> nat
    decreases t, 0int,
{
    match t {
        ProcTerm::Apply(a) => proc_apply_size(a),
        ProcTerm::Paren(p) => proc_term_size(*p.proc_term),
        _ => 1,
    }
}

pub open spec fn proc_apply_size(a: ProcTermApply) -> nat
    decreases a, a.args@.len() + 2,
{
    1 + proc_term_size(*a.f) + proc_args_size(a, 0)
}

pub open spec fn proc_args_size(a: ProcTermApply, i: int) -> nat
    decreases a, a.args@.len() - i,
{
    if i < 0 || i >= a.args@.len() {
        0
    } else {
        proc_term_size(a.args@[i]) + proc_args_size(a, i + 1)
    }
}

pub open spec fn term_size(t: Term) -> nat
    decreases t, 0int,
{
    match t {
        Term::Apply(a) => apply_size(a),
        Term::Paren(p) => term_size(*p.term),
        _ => 1,
    }
}

pub open spec fn apply_size(a: TermApply) -> nat
    decreases a, a.args@.len() + 2,
{
    1 + term_size(*a.f) + args_size(a, 0)
}

pub open spec fn args_size(a: TermApply, i: int) -> nat
    decreases a, a.args@.len() - i,
{
    if i < 0 || i >= a.args@.len() {
        0
    } else {
        term_size(a.args@[i]) + args_size(a, i + 1)
    }
}


/// A register, or an error, as a value.
pub open spec fn reg_view(r: Result<String, CompileError>) -> Result<Seq<char>, SCompileError> {
    match r {
        Ok(reg) => Ok(reg@),
        Err(e) => Err(e@),
    }
}

/// The compiler of GPU kernels to PTX text.
pub struct PtxCompiler {
    pub ptx_output: String,
    pub ptx_functions: Vec<String>,
    pub ptx_registers: NameMap<String>,
    pub ptx_next_u64_reg: usize,
    pub ptx_next_u32_reg: usize,
    pub ptx_next_f32_reg: usize,
    pub variables: NameMap<i32>,
    pub builtins: NameMap<String>,
}

impl Default for PtxCompiler {
    fn default() -> (c: PtxCompiler)
        ensures
            c.state() == (PtxState {
                out: Seq::empty(),
                regs: Map::empty(),
                vars: Map::empty(),
                rd: 4,
                r: 1,
                f: 1,
            }),
            c.ptx_functions@ == Seq::<String>::empty(),
            c.builtins@ == Map::<Seq<char>, String>::empty(),
            c.wf(),
    {
        PtxCompiler::new()
    }
}

impl PtxCompiler {
    /// The part of the compiler that compiling a kernel changes.
    pub open spec fn state(&self) -> PtxState {
        PtxState {
            out: self.ptx_output@,
            regs: self.ptx_registers@.map_values(|v: String| v@),
            vars: self.variables@,
            rd: self.ptx_next_u64_reg as nat,
            r: self.ptx_next_u32_reg as nat,
            f: self.ptx_next_f32_reg as nat,
        }
    }

    /// No variable is bound twice.
    pub open spec fn wf(&self) -> bool {
        self.variables.wf()
    }

    /// Room for `n` more registers of each kind.
    pub open spec fn room(&self, n: nat) -> bool {
        &&& self.ptx_next_u64_reg + n <= usize::MAX
        &&& self.ptx_next_u32_reg + n <= usize::MAX
        &&& self.ptx_next_f32_reg + n <= usize::MAX
    }

    /// `self` took at most `n` registers of each kind more than `before`.
    pub open spec fn within(&self, before: &PtxCompiler, n: nat) -> bool {
        &&& before.ptx_next_u64_reg <= self.ptx_next_u64_reg <= before.ptx_next_u64_reg + n
        &&& before.ptx_next_u32_reg <= self.ptx_next_u32_reg <= before.ptx_next_u32_reg + n
        &&& before.ptx_next_f32_reg <= self.ptx_next_f32_reg <= before.ptx_next_f32_reg + n
    }

    /// The kernels compiled so far and the builtins stay.
    pub open spec fn keeps(&self, before: &PtxCompiler) -> bool {
        &&& self.ptx_functions@ == before.ptx_functions@
        &&& self.builtins == before.builtins
    }

    pub fn new() -> (c: PtxCompiler)
        ensures
            c.state() == (PtxState {
                out: Seq::empty(),
                regs: Map::empty(),
                vars: Map::empty(),
                rd: 4,
                r: 1,
                f: 1,
            }),
            c.ptx_functions@ == Seq::<String>::empty(),
            c.builtins@ == Map::<Seq<char>, String>::empty(),
            c.wf(),
    {
        let c = PtxCompiler {
            ptx_output: String::new(),
            ptx_functions: Vec::new(),
            ptx_registers: NameMap::new(),
            ptx_next_u64_reg: 4,
            ptx_next_u32_reg: 1,
            ptx_next_f32_reg: 1,
            variables: NameMap::new(),
            builtins: NameMap::new(),
        };
        assert(c.state().regs =~= Map::empty());
        c
    }

    /// A fresh `%rd` register.
    pub fn allocate_ptx_u64_register(&mut self) -> (reg: String)
        requires
            old(self).ptx_next_u64_reg < usize::MAX,
        ensures
            reg@ == rd_reg(old(self).ptx_next_u64_reg as nat),
            final(self).state() == take_rd(old(self).state()),
            final(self).keeps(old(self)),
            final(self).variables == old(self).variables,
    {
        let n = self.ptx_next_u64_reg;
        let digits = nat_to_string(n as u128);
        let mut reg = String::from_str("%rd");
        reg.append(digits.as_str());
        self.ptx_next_u64_reg = n + 1;
        reg
    }

    /// A fresh `%r` register.
    pub fn allocate_ptx_u32_register(&mut self) -> (reg: String)
        requires
            old(self).ptx_next_u32_reg < usize::MAX,
        ensures
            reg@ == r_reg(old(self).ptx_next_u32_reg as nat),
            final(self).state() == take_r(old(self).state()),
            final(self).keeps(old(self)),
            final(self).variables == old(self).variables,
    {
        let n = self.ptx_next_u32_reg;
        let digits = nat_to_string(n as u128);
        let mut reg = String::from_str("%r");
        reg.append(digits.as_str());
        self.ptx_next_u32_reg = n + 1;
        reg
    }

    /// A fresh `%f` register.
    pub fn allocate_ptx_f32_register(&mut self) -> (reg: String)
        requires
            old(self).ptx_next_f32_reg < usize::MAX,
        ensures
            reg@ == f_reg(old(self).ptx_next_f32_reg as nat),
            final(self).state() == take_f(old(self).state()),
            final(self).keeps(old(self)),
            final(self).variables == old(self).variables,
    {
        let n = self.ptx_next_f32_reg;
        let digits = nat_to_string(n as u128);
        let mut reg = String::from_str("%f");
        reg.append(digits.as_str());
        self.ptx_next_f32_reg = n + 1;
        reg
    }

    /// Appends the instruction line `text`.
    fn emit_ptx(&mut self, text: &str)
        ensures
            final(self).state() == p_emit(old(self).state(), text@),
            final(self).keeps(old(self)),
            final(self).variables == old(self).variables,
            final(self).ptx_next_u64_reg == old(self).ptx_next_u64_reg,
            final(self).ptx_next_u32_reg == old(self).ptx_next_u32_reg,
            final(self).ptx_next_f32_reg == old(self).ptx_next_f32_reg,
    {
        emit(&mut self.ptx_output, text);
    }

    fn read_special(&mut self, sreg: &str) -> (reg: String)
        requires
            old(self).room(1),
        ensures
            p_ok(final(self).state(), reg@) == read_special(old(self).state(), sreg@),
            final(self).keeps(old(self)),
            final(self).variables == old(self).variables,
            final(self).within(old(self), 1),
    {
        let r = self.allocate_ptx_u32_register();
        let mut t = String::from_str("mov.u32 ");
        t.append(r.as_str());
        t.append(", ");
        t.append(sreg);
        t.append(";");
        self.emit_ptx(t.as_str());
        let d = self.allocate_ptx_u64_register();
        let mut t2 = String::from_str("cvt.u64.u32 ");
        t2.append(d.as_str());
        t2.append(", ");
        t2.append(r.as_str());
        t2.append(";");
        self.emit_ptx(t2.as_str());
        d
    }

    /// The register of a name, which may be a thread-index builtin.
    #[verifier::spinoff_prover]
    #[verifier::rlimit(60)]
    fn variable_register(&mut self, name: &str, undefined: &str) -> (r: Result<String, CompileError>)
        requires
            old(self).room(1),
        ensures
            final(self).state() == ptx_variable(old(self).builtins@, old(self).state(), name@, undefined@).state,
            reg_view(r) == ptx_variable(old(self).builtins@, old(self).state(), name@, undefined@).result,
            final(self).keeps(old(self)),
            final(self).variables == old(self).variables,
            final(self).within(old(self), 1),
    {
        let special = match self.builtins.get(name) {
            Some(b) => special_register_text(b.as_str()),
            None => None,
        };
        match special {
            Some(sreg) => Ok(self.read_special(sreg)),
            None => match self.ptx_registers.get(name) {
                Some(reg) => Ok(reg.clone()),
                None => if self.builtins.contains_key(name) {
                    Err(unsupported("Unknown PTX variable: ", name))
                } else {
                    Err(unsupported(undefined, name))
                },
            },
        }
    }

    /// A variable of a kernel's procedure term: its register.
    pub fn compile_ptx_variable(&mut self, var_name: &str) -> (r: Result<String, CompileError>)
        requires
            old(self).room(1),
        ensures
            final(self).state() == ptx_variable(
                old(self).builtins@,
                old(self).state(),
                var_name@,
                "Undefined PTX variable: "@,
            ).state,
            reg_view(r) == ptx_variable(
                old(self).builtins@,
                old(self).state(),
                var_name@,
                "Undefined PTX variable: "@,
            ).result,
            final(self).keeps(old(self)),
            final(self).variables == old(self).variables,
            final(self).within(old(self), 1),
    {
        self.variable_register(var_name, "Undefined PTX variable: ")
    }

    /// An integer literal in a fresh `%rd` register.
    fn number_register(&mut self, text: &str) -> (r: Result<String, CompileError>)
        requires
            old(self).room(1),
        ensures
            final(self).state() == ptx_number(old(self).state(), text@).state,
            reg_view(r) == ptx_number(old(self).state(), text@).result,
            final(self).keeps(old(self)),
            final(self).variables == old(self).variables,
            final(self).within(old(self), 1),
    {
        match parse_u64_text(text) {
            None => Err(unsupported("Invalid number: ", text)),
            Some(v) => {
                let d = self.allocate_ptx_u64_register();
                let digits = nat_to_string(v as u128);
                let mut t = String::from_str("mov.u64 ");
                t.append(d.as_str());
                t.append(", ");
                t.append(digits.as_str());
                t.append(";");
                self.emit_ptx(t.as_str());
                Ok(d)
            },
        }
    }

    /// A builtin's instruction on its operands, into a fresh register.
    fn op_register(&mut self, b: &str, instr: &str, operands: &str) -> (reg: String)
        requires
            old(self).room(1),
        ensures
            p_ok(final(self).state(), reg@) == op_result(old(self).state(), b@, instr@, operands@),
            final(self).keeps(old(self)),
            final(self).variables == old(self).variables,
            final(self).within(old(self), 1),
    {
        let is_float = is_text(b, "u64_to_f32") || is_text(b, "f32_mul") || is_text(b, "f32_div");
        let reg = if is_float {
            self.allocate_ptx_f32_register()
        } else {
            self.allocate_ptx_u64_register()
        };
        let mut t = String::from_str(instr);
        t.append(" ");
        t.append(reg.as_str());
        t.append(", ");
        t.append(operands);
        t.append(";");
        self.emit_ptx(t.as_str());
        reg
    }

    /// A float literal in a fresh `%f` register.
    fn float_register(&mut self, bits: u32) -> (reg: String)
        requires
            old(self).room(1),
        ensures
            p_ok(final(self).state(), reg@) == float_literal(old(self).state(), bits),
            final(self).keeps(old(self)),
            final(self).variables == old(self).variables,
            final(self).within(old(self), 1),
    {
        let reg = self.allocate_ptx_f32_register();
        let hex = hex8_text(bits);
        let mut t = String::from_str("mov.b32 ");
        t.append(reg.as_str());
        t.append(", ");
        t.append(hex.as_str());
        t.append(";");
        self.emit_ptx(t.as_str());
        reg
    }
}

/// The special register of a thread-index builtin.
fn special_register_text(b: &str) -> (r: Option<&'static str>)
    ensures
        r is Some <==> special_register(b@) is Some,
        r is Some ==> r->0@ == special_register(b@)->0,
{
    if is_text(b, "ctaid_x") {
        Some("%ctaid.x")
    } else if is_text(b, "ntid_x") {
        Some("%ntid.x")
    } else if is_text(b, "tid_x") {
        Some("%tid.x")
    } else {
        None
    }
}

/// The instruction of an arithmetic builtin and its number of operands.
fn builtin_op_text(b: &str) -> (r: Option<(&'static str, usize)>)
    ensures
        match r {
            Some((instr, n)) => builtin_op(b@) == Some((instr@, n as nat)),
            None => builtin_op(b@) is None,
        },
{
    if is_text(b, "u64_add") {
        Some(("add.u64", 2))
    } else if is_text(b, "u64_sub") {
        Some(("sub.u64", 2))
    } else if is_text(b, "u64_mul") {
        Some(("mul.lo.u64", 2))
    } else if is_text(b, "u64_div") {
        Some(("div.u64", 2))
    } else if is_text(b, "u64_mod") {
        Some(("rem.u64", 2))
    } else if is_text(b, "u64_to_f32") {
        Some(("cvt.rn.f32.u64", 1))
    } else if is_text(b, "f32_to_u64") {
        Some(("cvt.rzi.u64.f32", 1))
    } else if is_text(b, "f32_mul") {
        Some(("mul.f32", 2))
    } else if is_text(b, "f32_div") {
        Some(("div.approx.f32", 2))
    } else {
        None
    }
}

/// The error of a builtin called with the wrong number of arguments.
fn arity_error(b: &str, n: usize) -> (e: CompileError)
    ensures
        e@ == err(arity_message(b@, n as nat)),
{
    let mut m = String::from_str("__");
    m.append(b);
    if n == 2 {
        m.append(" requires two arguments");
    } else {
        m.append(" requires one argument");
    }
    CompileError::UnsupportedConstruct(m)
}

impl PtxCompiler {
    /// A procedure term of a kernel: the register that holds its value.
    pub fn compile_ptx_proc_term(&mut self, proc_term: &ProcTerm) -> (r: Result<String, CompileError>)
        requires
            old(self).room(proc_term_size(*proc_term)),
        ensures
            final(self).state() == ptx_proc_term_c(old(self).builtins@, old(self).state(), *proc_term).state,
            reg_view(r) == ptx_proc_term_c(old(self).builtins@, old(self).state(), *proc_term).result,
            final(self).keeps(old(self)),
            final(self).variables == old(self).variables,
            final(self).within(old(self), proc_term_size(*proc_term)),
        decreases proc_term, 0int,
    {
        match proc_term {
            ProcTerm::Variable(var) => self.variable_register(var.variable.as_str(), "Undefined PTX variable: "),
            ProcTerm::Number(num) => self.number_register(num.number.as_str()),
            ProcTerm::Apply(apply) => self.compile_ptx_proc_apply(apply),
            ProcTerm::Paren(paren) => self.compile_ptx_proc_term(&paren.proc_term),
            _ => Err(unsupported("PTX proc term not implemented: ", proc_term_kind_text(proc_term))),
        }
    }

    /// A call in a kernel: the register that holds its value.
    #[verifier::spinoff_prover]
    #[verifier::rlimit(60)]
    pub fn compile_ptx_proc_apply(&mut self, apply: &ProcTermApply) -> (r: Result<String, CompileError>)
        requires
            old(self).room(proc_apply_size(*apply)),
        ensures
            final(self).state() == ptx_proc_apply_c(old(self).builtins@, old(self).state(), *apply).state,
            reg_view(r) == ptx_proc_apply_c(old(self).builtins@, old(self).state(), *apply).result,
            final(self).keeps(old(self)),
            final(self).variables == old(self).variables,
            final(self).within(old(self), proc_apply_size(*apply)),
        decreases apply, apply.args@.len() + 2,
    {
        let builtin: Option<String> = match &*apply.f {
            ProcTerm::Variable(var) => match self.builtins.get(var.variable.as_str()) {
                Some(b) => Some(b.clone()),
                None => None,
            },
            _ => None,
        };
        match builtin {
            Some(b) => match builtin_op_text(b.as_str()) {
                Some((instr, n)) => self.compile_proc_op(apply, b.as_str(), instr, n),
                None => if is_text(b.as_str(), "f32") {
                    self.compile_proc_f32(apply)
                } else {
                    Err(unsupported("Unknown PTX builtin: ", b.as_str()))
                },
            },
            None => self.compile_proc_call(apply),
        }
    }

    fn compile_proc_op(&mut self, apply: &ProcTermApply, b: &str, instr: &str, n: usize) -> (r: Result<String, CompileError>)
        requires
            old(self).room(proc_apply_size(*apply)),
            builtin_op(b@) == Some((instr@, n as nat)),
        ensures
            final(self).state() == ptx_proc_op_c(old(self).builtins@, old(self).state(), *apply, b@, instr@, n as nat).state,
            reg_view(r) == ptx_proc_op_c(old(self).builtins@, old(self).state(), *apply, b@, instr@, n as nat).result,
            final(self).keeps(old(self)),
            final(self).variables == old(self).variables,
            final(self).within(old(self), proc_apply_size(*apply)),
        decreases apply, apply.args@.len() + 1,
    {
        if apply.args.len() != n || n == 0 {
            return Err(arity_error(b, n));
        }
        proof {
            assert(proc_args_size(*apply, 2) == 0);
            assert(proc_args_size(*apply, 1) == (if n == 2 { proc_term_size(apply.args@[1]) } else { 0 }));
            assert(proc_args_size(*apply, 0) == proc_term_size(apply.args@[0]) + proc_args_size(*apply, 1));
        }
        let r1 = self.compile_ptx_proc_term(&apply.args[0]);
        match r1 {
            Err(e) => Err(e),
            Ok(reg1) => if n == 2 {
                let r2 = self.compile_ptx_proc_term(&apply.args[1]);
                match r2 {
                    Err(e) => Err(e),
                    Ok(reg2) => {
                        let mut operands = reg1.clone();
                        operands.append(", ");
                        operands.append(reg2.as_str());
                        Ok(self.op_register(b, instr, operands.as_str()))
                    },
                }
            } else {
                Ok(self.op_register(b, instr, reg1.as_str()))
            },
        }
    }

    fn compile_proc_f32(&mut self, apply: &ProcTermApply) -> (r: Result<String, CompileError>)
        requires
            old(self).room(1),
        ensures
            final(self).state() == ptx_proc_f32_c(old(self).state(), *apply).state,
            reg_view(r) == ptx_proc_f32_c(old(self).state(), *apply).result,
            final(self).keeps(old(self)),
            final(self).variables == old(self).variables,
            final(self).within(old(self), 1),
    {
        if apply.args.len() != 1 {
            return Err(CompileError::UnsupportedConstruct(String::from_str("f32 requires one argument")));
        }
        match &apply.args[0] {
            ProcTerm::Number(num) => {
                let bits = match num.float_bits {
                    Some(b) => b,
                    None => 0,
                };
                Ok(self.float_register(bits))
            },
            _ => Err(CompileError::UnsupportedConstruct(String::from_str("f32 requires a number literal"))),
        }
    }

    fn compile_proc_call(&mut self, apply: &ProcTermApply) -> (r: Result<String, CompileError>)
        requires
            old(self).room(proc_apply_size(*apply)),
        ensures
            final(self).state() == ptx_proc_call_c(old(self).builtins@, old(self).state(), *apply).state,
            reg_view(r) == ptx_proc_call_c(old(self).builtins@, old(self).state(), *apply).result,
            final(self).keeps(old(self)),
            final(self).variables == old(self).variables,
            final(self).within(old(self), proc_apply_size(*apply)),
        decreases apply, apply.args@.len() + 1,
    {
        let f = self.compile_ptx_proc_term(&apply.f);
        match f {
            Err(e) => Err(e),
            Ok(reg) => match self.compile_proc_args(apply, 0) {
                Err(e) => Err(e),
                Ok(_) => Ok(reg),
            },
        }
    }

    fn compile_proc_args(&mut self, apply: &ProcTermApply, i: usize) -> (r: Result<(), CompileError>)
        requires
            i <= apply.args@.len(),
            old(self).room(proc_args_size(*apply, i as int)),
        ensures
            final(self).state() == ptx_proc_args_c(old(self).builtins@, old(self).state(), *apply, i as int).state,
            r is Ok <==> ptx_proc_args_c(old(self).builtins@, old(self).state(), *apply, i as int).result is Ok,
            r matches Err(e) ==> ptx_proc_args_c(old(self).builtins@, old(self).state(), *apply, i as int).result == Err::<Seq<char>, SCompileError>(e@),
            final(self).keeps(old(self)),
            final(self).variables == old(self).variables,
            final(self).within(old(self), proc_args_size(*apply, i as int)),
        decreases apply, apply.args@.len() - i,
    {
        if i >= apply.args.len() {
            return Ok(());
        }
        let r = self.compile_ptx_proc_term(&apply.args[i]);
        match r {
            Err(e) => Err(e),
            Ok(_) => self.compile_proc_args(apply, i + 1),
        }
    }
}

impl PtxCompiler {
    /// A term of the type language in a kernel: the register that holds its value.
    pub fn compile_ptx_term(&mut self, term: &Term) -> (r: Result<String, CompileError>)
        requires
            old(self).room(term_size(*term)),
        ensures
            final(self).state() == ptx_term_c(old(self).builtins@, old(self).state(), *term).state,
            reg_view(r) == ptx_term_c(old(self).builtins@, old(self).state(), *term).result,
            final(self).keeps(old(self)),
            final(self).variables == old(self).variables,
            final(self).within(old(self), term_size(*term)),
        decreases term, 0int,
    {
        match term {
            Term::Variable(var) => self.variable_register(var.variable.as_str(), "Undefined variable: "),
            Term::Number(num) => self.number_register(num.number.as_str()),
            Term::Apply(apply) => self.compile_ptx_apply(apply),
            Term::Paren(paren) => self.compile_ptx_term(&paren.term),
            _ => Err(unsupported("PTX term not implemented: ", term_kind_text(term))),
        }
    }

    /// A call of the type language in a kernel: the register that holds its value.
    #[verifier::spinoff_prover]
    #[verifier::rlimit(60)]
    pub fn compile_ptx_apply(&mut self, apply: &TermApply) -> (r: Result<String, CompileError>)
        requires
            old(self).room(apply_size(*apply)),
        ensures
            final(self).state() == ptx_apply_c(old(self).builtins@, old(self).state(), *apply).state,
            reg_view(r) == ptx_apply_c(old(self).builtins@, old(self).state(), *apply).result,
            final(self).keeps(old(self)),
            final(self).variables == old(self).variables,
            final(self).within(old(self), apply_size(*apply)),
        decreases apply, apply.args@.len() + 2,
    {
        let builtin: Option<String> = match &*apply.f {
            Term::Variable(var) => match self.builtins.get(var.variable.as_str()) {
                Some(b) => Some(b.clone()),
                None => None,
            },
            _ => None,
        };
        match builtin {
            Some(b) => match builtin_op_text(b.as_str()) {
                Some((instr, n)) => self.compile_op(apply, b.as_str(), instr, n),
                None => if is_text(b.as_str(), "f32") {
                    self.compile_f32(apply)
                } else {
                    Err(unsupported("Unknown PTX builtin: ", b.as_str()))
                },
            },
            None => self.compile_call(apply),
        }
    }

    fn compile_op(&mut self, apply: &TermApply, b: &str, instr: &str, n: usize) -> (r: Result<String, CompileError>)
        requires
            old(self).room(apply_size(*apply)),
            builtin_op(b@) == Some((instr@, n as nat)),
        ensures
            final(self).state() == ptx_op_c(old(self).builtins@, old(self).state(), *apply, b@, instr@, n as nat).state,
            reg_view(r) == ptx_op_c(old(self).builtins@, old(self).state(), *apply, b@, instr@, n as nat).result,
            final(self).keeps(old(self)),
            final(self).variables == old(self).variables,
            final(self).within(old(self), apply_size(*apply)),
        decreases apply, apply.args@.len() + 1,
    {
        if apply.args.len() != n || n == 0 {
            return Err(arity_error(b, n));
        }
        proof {
            assert(args_size(*apply, 2) == 0);
            assert(args_size(*apply, 1) == (if n == 2 { term_size(apply.args@[1]) } else { 0 }));
            assert(args_size(*apply, 0) == term_size(apply.args@[0]) + args_size(*apply, 1));
        }
        let r1 = self.compile_ptx_term(&apply.args[0]);
        match r1 {
            Err(e) => Err(e),
            Ok(reg1) => if n == 2 {
                let r2 = self.compile_ptx_term(&apply.args[1]);
                match r2 {
                    Err(e) => Err(e),
                    Ok(reg2) => {
                        let mut operands = reg1.clone();
                        operands.append(", ");
                        operands.append(reg2.as_str());
                        Ok(self.op_register(b, instr, operands.as_str()))
                    },
                }
            } else {
                Ok(self.op_register(b, instr, reg1.as_str()))
            },
        }
    }

    fn compile_f32(&mut self, apply: &TermApply) -> (r: Result<String, CompileError>)
        requires
            old(self).room(1),
        ensures
            final(self).state() == ptx_f32_c(old(self).state(), *apply).state,
            reg_view(r) == ptx_f32_c(old(self).state(), *apply).result,
            final(self).keeps(old(self)),
            final(self).variables == old(self).variables,
            final(self).within(old(self), 1),
    {
        if apply.args.len() != 1 {
            return Err(CompileError::UnsupportedConstruct(String::from_str("f32 requires one argument")));
        }
        match &apply.args[0] {
            Term::Number(num) => {
                let bits = match num.float_bits {
                    Some(b) => b,
                    None => 0,
                };
                Ok(self.float_register(bits))
            },
            _ => Err(CompileError::UnsupportedConstruct(String::from_str("f32 requires a number literal"))),
        }
    }

    fn compile_call(&mut self, apply: &TermApply) -> (r: Result<String, CompileError>)
        requires
            old(self).room(apply_size(*apply)),
        ensures
            final(self).state() == ptx_call_c(old(self).builtins@, old(self).state(), *apply).state,
            reg_view(r) == ptx_call_c(old(self).builtins@, old(self).state(), *apply).result,
            final(self).keeps(old(self)),
            final(self).variables == old(self).variables,
            final(self).within(old(self), apply_size(*apply)),
        decreases apply, apply.args@.len() + 1,
    {
        let f = self.compile_ptx_term(&apply.f);
        match f {
            Err(e) => Err(e),
            Ok(reg) => match self.compile_args(apply, 0) {
                Err(e) => Err(e),
                Ok(_) => Ok(reg),
            },
        }
    }

    fn compile_args(&mut self, apply: &TermApply, i: usize) -> (r: Result<(), CompileError>)
        requires
            i <= apply.args@.len(),
            old(self).room(args_size(*apply, i as int)),
        ensures
            final(self).state() == ptx_args_c(old(self).builtins@, old(self).state(), *apply, i as int).state,
            r is Ok <==> ptx_args_c(old(self).builtins@, old(self).state(), *apply, i as int).result is Ok,
            r matches Err(e) ==> ptx_args_c(old(self).builtins@, old(self).state(), *apply, i as int).result == Err::<Seq<char>, SCompileError>(e@),
            final(self).keeps(old(self)),
            final(self).variables == old(self).variables,
            final(self).within(old(self), args_size(*apply, i as int)),
        decreases apply, apply.args@.len() - i,
    {
        if i >= apply.args.len() {
            return Ok(());
        }
        let r = self.compile_ptx_term(&apply.args[i]);
        match r {
            Err(e) => Err(e),
            Ok(_) => self.compile_args(apply, i + 1),
        }
    }
}

/// The parameter names of a procedure type, appended to `params`.
pub fn extract_params_recursive(term: &Term, params: &mut Vec<String>)
    ensures
        texts(final(params)@) == proc_params(*term, texts(old(params)@)),
    decreases term,
{
    match term {
        Term::ArrowDep(arrow_dep) => {
            params.push(arrow_dep.from.variable.clone());
            proof {
                assert(texts(params@) =~= texts(old(params)@).push(arrow_dep.from.variable@));
            }
            extract_params_recursive(&arrow_dep.to, params);
        },
        Term::ArrowNodep(arrow_nodep) => match &*arrow_nodep.from {
            Term::Unit(_) => extract_params_recursive(&arrow_nodep.to, params),
            _ => {
                let n = params.len();
                let digits = nat_to_string(n as u128);
                let mut name = String::from_str("param_");
                name.append(digits.as_str());
                params.push(name);
                proof {
                    assert(texts(params@) =~= texts(old(params)@).push("param_"@ + decimal(n as nat)));
                }
                extract_params_recursive(&arrow_nodep.to, params);
            },
        },
        _ => {},
    }
}

/// The parameter names of a procedure type.
pub fn extract_proc_parameters(ty: &Term) -> (params: Vec<String>)
    ensures
        texts(params@) == proc_params(*ty, Seq::empty()),
{
    let mut params: Vec<String> = Vec::new();
    assert(texts(params@) =~= Seq::<Seq<char>>::empty());
    extract_params_recursive(ty, &mut params);
    params
}

impl PtxCompiler {
    /// A statement of a kernel.
    #[verifier::spinoff_prover]
    #[verifier::rlimit(60)]
    pub fn compile_ptx_statement(&mut self, statement: &Statement) -> (r: Result<(), CompileError>)
        requires
            old(self).wf(),
            old(self).room(statement_size(*statement)),
        ensures
            final(self).state() == ptx_statement_c(old(self).builtins@, old(self).state(), *statement).state,
            result_view(r) == ptx_statement_c(old(self).builtins@, old(self).state(), *statement).result,
            final(self).keeps(old(self)),
            final(self).within(old(self), statement_size(*statement)),
            final(self).wf(),
    {
        match statement {
            Statement::Let(let_stmt) => {
                let var_name = String::from_str(let_stmt.variable_name());
                match self.compile_ptx_proc_term(&let_stmt.value) {
                    Err(e) => Err(e),
                    Ok(reg) => {
                        let ghost before = self.state();
                        let ghost reg_text = reg@;
                        let ghost regs_before = self.ptx_registers@;
                        self.ptx_registers.insert(var_name.clone(), reg);
                        let n = self.variables.len();
                        self.variables.insert(var_name, n as i32);
                        proof {
                            assert(self.ptx_registers@.map_values(|v: String| v@) =~= regs_before.map_values(
                                |v: String| v@,
                            ).insert(let_stmt.variable@, reg_text));
                            assert(self.state() == bind_register(before, let_stmt.variable@, reg_text));
                        }
                        Ok(())
                    },
                }
            },
            Statement::FieldAssign(field_assign) => match &field_assign.field_access.index {
                None => Err(
                    CompileError::UnsupportedConstruct(String::from_str("Field assignment without index not supported")),
                ),
                Some(index) => {
                    let index_result = self.compile_ptx_proc_term(index);
                    match index_result {
                        Err(e) => Err(e),
                        Ok(index_reg) => {
                            let value_result = self.compile_ptx_proc_term(&field_assign.value);
                            match value_result {
                                Err(e) => Err(e),
                                Ok(value_reg) => {
                                    let field_name = field_assign.field_access.field_name();
                                    let pointer = if is_text(field_name, "r") {
                                        Some("%rd1")
                                    } else if is_text(field_name, "g") {
                                        Some("%rd2")
                                    } else if is_text(field_name, "b") {
                                        Some("%rd3")
                                    } else {
                                        None
                                    };
                                    match pointer {
                                        None => Err(unsupported("Unknown field: ", field_name)),
                                        Some(p) => {
                                            self.store_field(index_reg.as_str(), value_reg.as_str(), p);
                                            Ok(())
                                        },
                                    }
                                },
                            }
                        },
                    }
                },
            },
            _ => Err(unsupported("PTX statement not implemented: ", statement_kind_text(statement))),
        }
    }

    fn store_field(&mut self, index_reg: &str, value_reg: &str, pointer: &str)
        requires
            old(self).room(2),
        ensures
            final(self).state() == field_store(old(self).state(), index_reg@, value_reg@, pointer@),
            final(self).keeps(old(self)),
            final(self).variables == old(self).variables,
            final(self).within(old(self), 2),
    {
        let temp_reg = self.allocate_ptx_u64_register();
        let addr_reg = self.allocate_ptx_u64_register();
        let mut t1 = String::from_str("mul.lo.u64 ");
        t1.append(temp_reg.as_str());
        t1.append(", ");
        t1.append(index_reg);
        t1.append(", 8;");
        let mut t2 = String::from_str("add.u64 ");
        t2.append(addr_reg.as_str());
        t2.append(", ");
        t2.append(pointer);
        t2.append(", ");
        t2.append(temp_reg.as_str());
        t2.append(";");
        let mut t3 = String::from_str("st.global.u64 [");
        t3.append(addr_reg.as_str());
        t3.append("], ");
        t3.append(value_reg);
        t3.append(";");
        let ghost s0 = old(self).state();
        self.emit_ptx(t1.as_str());
        self.emit_ptx(t2.as_str());
        self.emit_ptx(t3.as_str());
    }

    /// The statements of a kernel, in order, up to the first that fails.
    pub fn compile_ptx_statements(&mut self, statements: &Statements) -> (r: Result<(), CompileError>)
        requires
            old(self).wf(),
            old(self).room(statements_size(*statements)),
        ensures
            final(self).state() == ptx_statements_c(old(self).builtins@, old(self).state(), *statements).state,
            result_view(r) == ptx_statements_c(old(self).builtins@, old(self).state(), *statements).result,
            final(self).keeps(old(self)),
            final(self).within(old(self), statements_size(*statements)),
            final(self).wf(),
        decreases statements,
    {
        match statements {
            Statements::Then(then) => match self.compile_ptx_statement(&then.head) {
                Err(e) => Err(e),
                Ok(()) => match &*then.tail {
                    Statements::Nil => {
                        assert(ptx_statements_c(old(self).builtins@, self.state(), *then.tail) == step_ok(self.state()));
                        Ok(())
                    },
                    _ => self.compile_ptx_statements(&then.tail),
                },
            },
            Statements::Statement(statement) => self.compile_ptx_statement(statement),
            Statements::Nil => Ok(()),
        }
    }

    /// A kernel body: register declarations, parameter loads when there are parameters,
    /// then the statements.
    #[verifier::spinoff_prover]
    #[verifier::rlimit(60)]
    pub fn compile_ptx_proc_block(&mut self, block: &ItemProcBlock, has_params: bool) -> (r: Result<(), CompileError>)
        requires
            old(self).wf(),
            old(self).room(statements_size(block.statements)),
        ensures
            final(self).state() == ptx_block_c(old(self).builtins@, old(self).state(), *block, has_params).state,
            result_view(r) == ptx_block_c(old(self).builtins@, old(self).state(), *block, has_params).result,
            final(self).keeps(old(self)),
            final(self).within(old(self), statements_size(block.statements)),
            final(self).wf(),
    {
        self.ptx_output.append("    .reg .b64 %rd<100>;\n");
        self.ptx_output.append("    .reg .b32 %r<100>;\n");
        self.ptx_output.append("    .reg .b32 %f<100>;\n");
        self.ptx_output.append("\n");
        if has_params {
            self.ptx_output.append("    ld.param.u64 %rd1, [ps_r];\n");
            self.ptx_output.append("    ld.param.u64 %rd2, [ps_g];\n");
            self.ptx_output.append("    ld.param.u64 %rd3, [ps_b];\n");
            self.ptx_output.append("    cvta.to.global.u64 %rd1, %rd1;\n");
            self.ptx_output.append("    cvta.to.global.u64 %rd2, %rd2;\n");
            self.ptx_output.append("    cvta.to.global.u64 %rd3, %rd3;\n");
            self.ptx_output.append("\n");
        }
        proof {
            reveal_strlit("\n");
            assert(self.ptx_output@ =~= old(self).ptx_output@ + block_prologue(has_params));
            assert(self.state() == with_out(old(self).state(), old(self).state().out + block_prologue(has_params)));
        }
        self.compile_ptx_statements(&block.statements)
    }

    /// A procedure compiled as a kernel, its name added to the kernels compiled.
    #[verifier::spinoff_prover]
    #[verifier::rlimit(60)]
    pub fn compile_ptx_proc(&mut self, proc: &ItemProc) -> (r: Result<(), CompileError>)
        requires
            old(self).wf(),
            4 + statements_size(proc.proc_block.statements) <= usize::MAX,
        ensures
            final(self).state() == ptx_proc_c(old(self).builtins@, old(self).state(), *proc).state,
            result_view(r) == ptx_proc_c(old(self).builtins@, old(self).state(), *proc).result,
            texts(final(self).ptx_functions@) == texts(old(self).ptx_functions@).push(proc.name@),
            final(self).builtins == old(self).builtins,
            final(self).wf(),
    {
        self.begin_kernel(proc.name.as_str());
        let ghost s0 = self.state();
        let param_names = extract_proc_parameters(&proc.ty);
        let ghost n = proc_params(proc.ty, Seq::empty()).len();
        assert(param_names@.len() == n) by {
            assert(texts(param_names@).len() == param_names@.len());
        }
        if param_names.len() == 0 {
        } else if param_names.len() == 1 {
            self.ptx_output.append("    .param .u64 ps_r,\n");
            self.ptx_output.append("    .param .u64 ps_g,\n");
            self.ptx_output.append("    .param .u64 ps_b\n");
        } else {
            return Err(
                CompileError::UnsupportedConstruct(
                    String::from_str("PTX kernels with multiple parameters not yet supported"),
                ),
            );
        }
        self.ptx_output.append(")\n{\n");
        proof {
            assert(self.ptx_output@ =~= s0.out + kernel_params(n)->Ok_0 + ")\n{\n"@);
            assert(self.state() == with_out(s0, s0.out + kernel_params(n)->Ok_0 + ")\n{\n"@));
        }
        let has_params = param_names.len() > 0;
        match self.compile_ptx_proc_block(&proc.proc_block, has_params) {
            Err(e) => {
                return Err(e);
            },
            Ok(()) => {},
        }
        self.ptx_output.append("    ret;\n");
        self.ptx_output.append("}\n\n");
        self.variables.clear();
        Ok(())
    }

    /// Starts a kernel: its registers are numbered afresh and its head is written.
    fn begin_kernel(&mut self, name: &str)
        requires
            old(self).wf(),
        ensures
            final(self).state() == (PtxState {
                out: old(self).state().out + kernel_head(name@),
                regs: Map::empty(),
                vars: old(self).state().vars,
                rd: 4,
                r: 1,
                f: 1,
            }),
            texts(final(self).ptx_functions@) == texts(old(self).ptx_functions@).push(name@),
            final(self).builtins == old(self).builtins,
            final(self).variables == old(self).variables,
            final(self).wf(),
    {
        self.ptx_registers.clear();
        self.ptx_next_u64_reg = 4;
        self.ptx_next_u32_reg = 1;
        self.ptx_next_f32_reg = 1;
        self.ptx_functions.push(String::from_str(name));
        self.ptx_output.append("    \t// .globl\tf\n");
        self.ptx_output.append(".visible .entry ");
        self.ptx_output.append(name);
        self.ptx_output.append("(\n");
        proof {
            assert(texts(self.ptx_functions@) =~= texts(old(self).ptx_functions@).push(name@));
            assert(self.state().regs =~= Map::<Seq<char>, Seq<char>>::empty());
            assert(self.ptx_output@ =~= old(self).ptx_output@ + kernel_head(name@));
        }
    }
}

} // verus!
