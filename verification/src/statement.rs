use vstd::prelude::*;
use vstd::string::*;

use crate::arrays::{generate_soa_allocation, generate_soa_allocation_with_var, get_field_type};
use crate::codegen::{
    arity_error, contains_exec, contains_text, emit, emit_label, is_text, join2, join3, line,
    next_label_exec, result_view, slot, slot_text, ArrayInfo, CompileError, LabelCounters,
    SCompileError,
};
use crate::compile_text::{ends_with, hex8_text, trim_end_all};
use crate::lowering::{
    apply_c, arrays_wf, call_arguments, call_register, constructor_code, constructor_name, deref_c, deref_load,
    dslot, err, f32_instruction, f32_let, f32_literal, f32_operands, f32_result_tail,
    field_access_code, if_c, let_c, let_mut_c, assign_c, field_assign_c, load_arg, load_f32_arg,
    loop_c, number_text, one_operand, size_operand, stmt_c, stmts_c, term_c, then_emit,
    u64_mod_let, u64_operands, u64_tail, c_then_emit, Code, Env, Frame, SOutcome, XOutcome, XState,
};
use crate::names::NameMap;
use crate::syntax::{
    proc_term_kind, proc_term_kind_text, ProcTerm, ProcTermApply, ProcTermConstructorCall,
    ProcTermDereference, ProcTermFieldAccess, ProcTermIf, ProcTermNumber, ProcTermVariable,
    Statement, StatementAssign, StatementFieldAssign, StatementLet, StatementLetMut, StatementLoop,
    StatementReturn, Statements,
};
use crate::syscall::{emit_mov, mov, SyscallCompiler};
use crate::text::{decimal, int_to_string};

verus! {

broadcast use vstd::std_specs::vec::group_vec_axioms;

// The statement compiler. Each function appends the code of a construct to `output` and
// updates the compiler's tables exactly as the functions of `lowering` describe.

/// The expression state that the arguments of a function stand for.
pub open spec fn xs(out: Seq<char>, varr: Map<Seq<char>, String>, labels: LabelCounters) -> XState {
    XState { out, varr, labels }
}

/// Loading an `f32` operand leaves the array type of variables as it was.
pub proof fn lemma_load_f32_keeps(arrays: Map<Seq<char>, ArrayInfo>, vars: Map<Seq<char>, i32>, x: XState, arg: ProcTerm, reg: Seq<char>)
    ensures
        load_f32_arg(arrays, vars, x, arg, reg).state.varr == x.varr,
    decreases arg,
{
    match arg {
        ProcTerm::Paren(p) => lemma_load_f32_keeps(arrays, vars, x, *p.proc_term, reg),
        _ => {},
    }
}

pub proof fn lemma_apply_keeps(e: Env, vars: Map<Seq<char>, i32>, x: XState, a: ProcTermApply)
    ensures
        apply_c(e, vars, x, a).state.varr == x.varr,
{
    if a.args@.len() == 2 {
        lemma_load_f32_keeps(e.arrays, vars, x, a.args@[0], "xmm0"@);
        lemma_load_f32_keeps(e.arrays, vars, load_f32_arg(e.arrays, vars, x, a.args@[0], "xmm0"@).state, a.args@[1], "xmm1"@);
    }
    if a.args@.len() == 1 {
        lemma_load_f32_keeps(e.arrays, vars, x, a.args@[0], "xmm0"@);
    }
}

/// A numeral as the statement compiler writes it.
pub fn number_literal_text(n: &ProcTermNumber) -> (r: String)
    ensures
        r@ == number_text(*n),
{
    proof {
        reveal_strlit("u64");
        reveal_strlit("f32");
    }
    if ends_with(n.number.as_str(), "u64") {
        trim_end_all(n.number.as_str(), "u64")
    } else if ends_with(n.number.as_str(), "f32") {
        match n.trimmed_float_bits {
            Some(b) => hex8_text(b),
            None => trim_end_all(n.number.as_str(), "f32"),
        }
    } else {
        n.number.clone()
    }
}

/// The 4-byte stack slot at `offset`.
pub fn dslot_text(offset: i32) -> (r: String)
    ensures
        r@ == dslot(offset),
{
    let mut r = String::from_str("dword ptr [rbp - 8 - ");
    let d = int_to_string(offset as i128 - 8);
    r.append(d.as_str());
    r.append("]");
    proof {
        reveal_strlit("dword ptr [rbp - 8 - ");
        reveal_strlit("]");
    }
    r
}

/// Loads an integer operand (a numeral, a variable, a parenthesized or dereferenced term)
/// into `register`.
pub fn load_proc_argument_into_register(
    arg: &ProcTerm,
    register: &str,
    variables: &NameMap<i32>,
    labels: &mut LabelCounters,
    output: &mut String,
) -> (r: Result<(), CompileError>)
    ensures
        ({
            let o = load_arg(variables@, Code { out: old(output)@, labels: *old(labels) }, *arg, register@);
            &&& final(output)@ == o.code.out
            &&& *final(labels) == o.code.labels
            &&& result_view(r) == o.result
        }),
    decreases arg, 0nat,
{
    proof {
        reveal_strlit("Unknown variable: ");
        reveal_strlit("Unsupported argument type: ");
        reveal_strlit("qword ptr [rax]");
    }
    match arg {
        ProcTerm::Number(num) => {
            let value = number_literal_text(num);
            emit_mov(output, register, value.as_str());
            Ok(())
        },
        ProcTerm::Variable(var) => match variables.get(var.variable.as_str()) {
            Some(offset) => {
                let s = slot_text(*offset);
                emit_mov(output, register, s.as_str());
                Ok(())
            },
            None => Err(CompileError::UnsupportedConstruct(join2("Unknown variable: ", var.variable.as_str()))),
        },
        ProcTerm::Paren(paren) => load_proc_argument_into_register(&paren.proc_term, register, variables, labels, output),
        ProcTerm::Dereference(dereference) => {
            let refs: NameMap<String> = NameMap::new();
            let builtins: NameMap<String> = NameMap::new();
            let arrays: NameMap<ArrayInfo> = NameMap::new();
            let mut varr: NameMap<String> = NameMap::new();
            proof {
                assert(arrays_wf(arrays@));
            }
            match compile_proc_term(&dereference.term, variables, &refs, &builtins, &arrays, &mut varr, labels, output) {
                Ok(()) => {},
                Err(e) => return Err(e),
            }
            emit_mov(output, register, "qword ptr [rax]");
            Ok(())
        },
        _ => Err(CompileError::UnsupportedConstruct(join2("Unsupported argument type: ", proc_term_kind_text(arg)))),
    }
}

/// Loads an `f32` operand into `register`.
pub fn load_f32_proc_argument_into_register(
    arg: &ProcTerm,
    register: &str,
    variables: &NameMap<i32>,
    arrays: &NameMap<ArrayInfo>,
    variable_arrays: &NameMap<String>,
    labels: &mut LabelCounters,
    output: &mut String,
) -> (r: Result<(), CompileError>)
    requires
        arrays_wf(arrays@),
    ensures
        ({
            let o = load_f32_arg(arrays@, variables@, xs(old(output)@, variable_arrays@, *old(labels)), *arg, register@);
            &&& final(output)@ == o.state.out
            &&& *final(labels) == o.state.labels
            &&& o.state.varr == variable_arrays@
            &&& result_view(r) == o.result
        }),
    decreases arg, 0nat,
{
    proof {
        reveal_strlit("Unknown variable: ");
        reveal_strlit("Unsupported f32 argument type: ");
        reveal_strlit("Expected f32 number, got: ");
        reveal_strlit("f32");
        reveal_strlit("mov eax, ");
        reveal_strlit("movd ");
        reveal_strlit(", eax");
        reveal_strlit("movss ");
        reveal_strlit(", ");
        reveal_strlit(", dword ptr [rax]");
        lemma_load_f32_keeps(arrays@, variables@, xs(old(output)@, variable_arrays@, *old(labels)), *arg, register@);
    }
    match arg {
        ProcTerm::Number(num) => {
            if ends_with(num.number.as_str(), "f32") {
                let bits: u32 = match num.suffix_float_bits {
                    Some(b) => b,
                    None => 0,
                };
                let h = hex8_text(bits);
                let a = join2("mov eax, ", h.as_str());
                emit(output, a.as_str());
                let b = join3("movd ", register, ", eax");
                emit(output, b.as_str());
                Ok(())
            } else {
                Err(CompileError::UnsupportedConstruct(join2("Expected f32 number, got: ", num.number.as_str())))
            }
        },
        ProcTerm::Variable(var) => match variables.get(var.variable.as_str()) {
            Some(offset) => {
                let d = dslot_text(*offset);
                let mut a = String::from_str("movss ");
                a.append(register);
                a.append(", ");
                a.append(d.as_str());
                emit(output, a.as_str());
                Ok(())
            },
            None => Err(CompileError::UnsupportedConstruct(join2("Unknown variable: ", var.variable.as_str()))),
        },
        ProcTerm::Paren(paren) => load_f32_proc_argument_into_register(
            &paren.proc_term,
            register,
            variables,
            arrays,
            variable_arrays,
            labels,
            output,
        ),
        ProcTerm::Dereference(dereference) => {
            let refs: NameMap<String> = NameMap::new();
            let builtins: NameMap<String> = NameMap::new();
            let mut varr = variable_arrays.duplicate_text();
            match compile_proc_term(&dereference.term, variables, &refs, &builtins, arrays, &mut varr, labels, output) {
                Ok(()) => {},
                Err(e) => return Err(e),
            }
            let a = join3("movss ", register, ", dword ptr [rax]");
            emit(output, a.as_str());
            Ok(())
        },
        _ => Err(
            CompileError::UnsupportedConstruct(join2("Unsupported f32 argument type: ", proc_term_kind_text(arg))),
        ),
    }
}

/// Compiles a procedure term; its value ends up in `rax`.
pub fn compile_proc_term(
    proc_term: &ProcTerm,
    variables: &NameMap<i32>,
    reference_variables: &NameMap<String>,
    builtins: &NameMap<String>,
    arrays: &NameMap<ArrayInfo>,
    variable_arrays: &mut NameMap<String>,
    labels: &mut LabelCounters,
    output: &mut String,
) -> (r: Result<(), CompileError>)
    requires
        arrays_wf(arrays@),
    ensures
        ({
            let o = term_c(
                Env { builtins: builtins@, arrays: arrays@ },
                variables@,
                reference_variables@,
                xs(old(output)@, old(variable_arrays)@, *old(labels)),
                *proc_term,
            );
            &&& final(output)@ == o.state.out
            &&& final(variable_arrays)@ == o.state.varr
            &&& *final(labels) == o.state.labels
            &&& result_view(r) == o.result
        }),
    decreases proc_term, 0nat,
{
    match proc_term {
        ProcTerm::Apply(apply) => {
            proof {
                lemma_apply_keeps(
                    Env { builtins: builtins@, arrays: arrays@ },
                    variables@,
                    xs(old(output)@, old(variable_arrays)@, *old(labels)),
                    *apply,
                );
            }
            compile_proc_apply(apply, variables, builtins, arrays, variable_arrays, labels, output)
        },
        ProcTerm::Variable(var) => compile_proc_variable(var, variables, output),
        ProcTerm::Number(num) => compile_proc_number(num, output),
        ProcTerm::FieldAccess(field_access) => compile_proc_field_access(
            field_access,
            variables,
            arrays,
            variable_arrays,
            output,
        ),
        ProcTerm::ConstructorCall(constructor_call) => {
            let mut offset: i32 = 0;
            let mut fresh: NameMap<i32> = NameMap::new();
            compile_proc_constructor_call(constructor_call, arrays, output, &mut offset, &mut fresh)
        },
        ProcTerm::Dereference(dereference) => compile_proc_dereference(
            dereference,
            variables,
            reference_variables,
            builtins,
            arrays,
            variable_arrays,
            labels,
            output,
        ),
        ProcTerm::If(if_expr) => compile_proc_if_in(
            if_expr,
            variables,
            reference_variables,
            builtins,
            arrays,
            variable_arrays,
            None,
            labels,
            output,
        ),
        ProcTerm::Paren(paren) => compile_proc_term(
            &paren.proc_term,
            variables,
            reference_variables,
            builtins,
            arrays,
            variable_arrays,
            labels,
            output,
        ),
        ProcTerm::Unit(_) => Err(CompileError::UnsupportedConstruct(String::from_str(proc_term_kind_text(proc_term)))),
    }
}

/// Loads a variable into `rax`.
pub fn compile_proc_variable(var: &ProcTermVariable, variables: &NameMap<i32>, output: &mut String) -> (r: Result<
    (),
    CompileError,
>)
    ensures
        variables@.contains_key(var.variable@) ==> r is Ok && final(output)@ == old(output)@ + mov(
            "rax"@,
            slot(variables@[var.variable@]),
        ),
        !variables@.contains_key(var.variable@) ==> (r matches Err(e) && e@ == err(
            crate::syscall::unknown_variable(var.variable@),
        ) && final(output)@ == old(output)@),
{
    proof {
        reveal_strlit("Unknown variable: ");
    }
    match variables.get(var.variable.as_str()) {
        Some(offset) => {
            let s = slot_text(*offset);
            emit_mov(output, "rax", s.as_str());
            Ok(())
        },
        None => Err(CompileError::UnsupportedConstruct(join2("Unknown variable: ", var.variable.as_str()))),
    }
}

/// Loads a numeral into `rax`.
pub fn compile_proc_number(num: &ProcTermNumber, output: &mut String) -> (r: Result<(), CompileError>)
    ensures
        r is Ok,
        final(output)@ == old(output)@ + mov("rax"@, number_text(*num)),
{
    let value = number_literal_text(num);
    emit_mov(output, "rax", value.as_str());
    Ok(())
}

/// The optional break label as text.
pub open spec fn opt_text(b: Option<&str>) -> Option<Seq<char>> {
    match b {
        Some(l) => Some(l@),
        None => None,
    }
}

pub open spec fn frame_of(vars: Map<Seq<char>, i32>, refs: Map<Seq<char>, String>, offset: i32, x: XState) -> Frame {
    Frame { vars, refs, offset, x }
}

/// Compiles a call of a builtin, or of a procedure of the program.
pub fn compile_proc_apply(
    apply: &ProcTermApply,
    variables: &NameMap<i32>,
    builtins: &NameMap<String>,
    arrays: &NameMap<ArrayInfo>,
    variable_arrays: &NameMap<String>,
    labels: &mut LabelCounters,
    output: &mut String,
) -> (r: Result<(), CompileError>)
    requires
        arrays_wf(arrays@),
    ensures
        ({
            let o = apply_c(
                Env { builtins: builtins@, arrays: arrays@ },
                variables@,
                xs(old(output)@, variable_arrays@, *old(labels)),
                *apply,
            );
            &&& final(output)@ == o.state.out
            &&& *final(labels) == o.state.labels
            &&& result_view(r) == o.result
        }),
    decreases apply, 1nat,
{
    let ghost x = xs(old(output)@, variable_arrays@, *old(labels));
    proof {
        reveal_strlit("Apply");
        reveal_strlit("syscall");
        reveal_strlit("u64_add");
        reveal_strlit("u64_sub");
        reveal_strlit("u64_mul");
        reveal_strlit("u64_div");
        reveal_strlit("u64_mod");
        reveal_strlit("u64_eq");
        reveal_strlit("f32_add");
        reveal_strlit("f32_sub");
        reveal_strlit("f32_mul");
        reveal_strlit("f32_div");
        reveal_strlit("f32_to_u64");
        reveal_strlit("u64_to_f32");
        reveal_strlit("u64");
        reveal_strlit("f32");
    }
    match &*apply.f {
        ProcTerm::Variable(var) => match builtins.get(var.variable.as_str()) {
            Some(builtin) => {
                let b = builtin.as_str();
                if is_text(b, "syscall") {
                    SyscallCompiler::compile_proc_syscall(apply.args.as_slice(), variables, output)
                } else if is_text(b, "u64_add") || is_text(b, "u64_sub") || is_text(b, "u64_mul") || is_text(b, "u64_div")
                    || is_text(b, "u64_mod") || is_text(b, "u64_eq") {
                    match u64_operands_in(apply, b, variables, labels, output) {
                        Ok(()) => {},
                        Err(e) => return Err(e),
                    }
                    emit_u64_tail(output, b);
                    Ok(())
                } else if is_text(b, "f32_add") || is_text(b, "f32_sub") || is_text(b, "f32_mul") || is_text(b, "f32_div") {
                    match f32_operands_in(apply, b, variables, arrays, variable_arrays, labels, output) {
                        Ok(()) => {},
                        Err(e) => return Err(e),
                    }
                    emit_f32_instruction(output, b);
                    emit_f32_result(output);
                    Ok(())
                } else if is_text(b, "f32_to_u64") {
                    compile_f32_to_u64_direct(apply, variables, arrays, variable_arrays, labels, output)
                } else if is_text(b, "u64_to_f32") {
                    compile_u64_to_f32_direct(apply, variables, arrays, variable_arrays, labels, output)
                } else if is_text(b, "u64") {
                    compile_u64_direct(apply, variables, labels, output)
                } else if is_text(b, "f32") {
                    compile_f32_direct(apply, variables, output)
                } else {
                    Err(CompileError::UnsupportedConstruct(String::from_str("Apply")))
                }
            },
            None => {
                match call_arguments_in(apply.args.as_slice(), variables, output) {
                    Ok(()) => {},
                    Err(e) => return Err(e),
                }
                let call = join2("call ", var.variable.as_str());
                proof {
                    reveal_strlit("call ");
                }
                emit(output, call.as_str());
                Ok(())
            },
        },
        _ => Err(CompileError::UnsupportedConstruct(String::from_str("Apply"))),
    }
}

/// Passes the arguments of a procedure call in the argument registers.
fn call_arguments_in(args: &[ProcTerm], variables: &NameMap<i32>, output: &mut String) -> (r: Result<(), CompileError>)
    ensures
        final(output)@ == old(output)@ + call_arguments(args@, variables@, 0).0,
        result_view(r) == call_arguments(args@, variables@, 0).1,
{
    let n = args.len();
    let ghost start = output@;
    let mut i: usize = 0;
    while i < n
        invariant
            n == args@.len(),
            i <= n,
            i <= 6,
            start == old(output)@,
            output@.len() >= start.len(),
            call_arguments(args@, variables@, 0) == (
                output@.subrange(start.len() as int, output@.len() as int) + call_arguments(args@, variables@, i as int).0,
                call_arguments(args@, variables@, i as int).1,
            ),
            output@ == start + output@.subrange(start.len() as int, output@.len() as int),
        decreases n - i,
    {
        if i >= 6 {
            proof {
                reveal_strlit("More than 6 arguments not supported");
                assert(output@.subrange(start.len() as int, output@.len() as int) + Seq::<char>::empty()
                    =~= output@.subrange(start.len() as int, output@.len() as int));
            }
            return Err(CompileError::UnsupportedConstruct(String::from_str("More than 6 arguments not supported")));
        }
        let ghost before = output@;
        let result = SyscallCompiler::load_proc_argument_into_register(&args[i], call_register_text(i), variables, output);
        proof {
            assert(output@.subrange(start.len() as int, output@.len() as int) =~= before.subrange(
                start.len() as int,
                before.len() as int,
            ) + output@.subrange(before.len() as int, output@.len() as int));
            assert(output@ =~= start + output@.subrange(start.len() as int, output@.len() as int));
        }
        match result {
            Ok(()) => {},
            Err(e) => {
                return Err(e);
            },
        }
        i = i + 1;
    }
    proof {
        assert(output@.subrange(start.len() as int, output@.len() as int) + Seq::<char>::empty()
            =~= output@.subrange(start.len() as int, output@.len() as int));
    }
    Ok(())
}

fn call_register_text(i: usize) -> (r: &'static str)
    requires
        i < 6,
    ensures
        r@ == call_register(i as int),
{
    proof {
        reveal_strlit("rdi");
        reveal_strlit("rsi");
        reveal_strlit("rdx");
        reveal_strlit("rcx");
        reveal_strlit("r8");
        reveal_strlit("r9");
    }
    if i == 0 {
        "rdi"
    } else if i == 1 {
        "rsi"
    } else if i == 2 {
        "rdx"
    } else if i == 3 {
        "rcx"
    } else if i == 4 {
        "r8"
    } else {
        "r9"
    }
}

fn emit_u64_tail(output: &mut String, b: &str)
    requires
        u64_tail(b@) is Some,
    ensures
        final(output)@ == old(output)@ + u64_tail(b@)->0,
{
    let ghost before = output@;
    proof {
        reveal_strlit("u64_add");
        reveal_strlit("u64_sub");
        reveal_strlit("u64_mul");
        reveal_strlit("u64_div");
        reveal_strlit("u64_mod");
        reveal_strlit("u64_eq");
    }
    if is_text(b, "u64_add") {
        emit(output, "add rax, rbx");
    } else if is_text(b, "u64_sub") {
        emit(output, "sub rax, rbx");
    } else if is_text(b, "u64_mul") {
        emit(output, "imul rax, rbx");
    } else if is_text(b, "u64_div") {
        emit(output, "xor rdx, rdx");
        emit(output, "div rbx");
    } else if is_text(b, "u64_mod") {
        emit(output, "xor rdx, rdx");
        emit(output, "div rbx");
        emit(output, "mov rax, rdx");
    } else {
        emit(output, "cmp rax, rbx");
        emit(output, "sete al");
        emit(output, "movzx rax, al");
    }
    assert(output@ =~= before + u64_tail(b@)->0);
}

fn emit_f32_instruction(output: &mut String, b: &str)
    requires
        f32_instruction(b@) is Some,
    ensures
        final(output)@ == old(output)@ + line(f32_instruction(b@)->0),
{
    proof {
        reveal_strlit("f32_add");
        reveal_strlit("f32_sub");
        reveal_strlit("f32_mul");
        reveal_strlit("f32_div");
    }
    if is_text(b, "f32_add") {
        emit(output, "addss xmm0, xmm1");
    } else if is_text(b, "f32_sub") {
        emit(output, "subss xmm0, xmm1");
    } else if is_text(b, "f32_mul") {
        emit(output, "mulss xmm0, xmm1");
    } else {
        emit(output, "divss xmm0, xmm1");
    }
}

fn emit_f32_result(output: &mut String)
    ensures
        final(output)@ == old(output)@ + f32_result_tail(),
{
    let ghost before = output@;
    emit(output, "movd eax, xmm0");
    emit(output, "mov rax, rax");
    assert(output@ =~= before + f32_result_tail());
}

/// The two integer operands of a builtin, in `rax` and `rbx`.
fn u64_operands_in(apply: &ProcTermApply, name: &str, variables: &NameMap<i32>, labels: &mut LabelCounters, output: &mut String) -> (r:
    Result<(), CompileError>)
    ensures
        ({
            let o = u64_operands(variables@, Code { out: old(output)@, labels: *old(labels) }, *apply, name@);
            &&& final(output)@ == o.code.out
            &&& *final(labels) == o.code.labels
            &&& result_view(r) == o.result
        }),
    decreases apply, 0nat,
{
    if apply.args.len() != 2 {
        proof {
            reveal_strlit("2 arguments");
        }
        return Err(arity_error(name, "2 arguments", apply.args.len()));
    }
    proof {
        reveal_strlit("rax");
        reveal_strlit("rbx");
    }
    match load_proc_argument_into_register(&apply.args[0], "rax", variables, labels, output) {
        Ok(()) => {},
        Err(e) => return Err(e),
    }
    load_proc_argument_into_register(&apply.args[1], "rbx", variables, labels, output)
}

/// The two `f32` operands of a builtin, in `xmm0` and `xmm1`.
fn f32_operands_in(
    apply: &ProcTermApply,
    name: &str,
    variables: &NameMap<i32>,
    arrays: &NameMap<ArrayInfo>,
    variable_arrays: &NameMap<String>,
    labels: &mut LabelCounters,
    output: &mut String,
) -> (r: Result<(), CompileError>)
    requires
        arrays_wf(arrays@),
    ensures
        ({
            let o = f32_operands(arrays@, variables@, xs(old(output)@, variable_arrays@, *old(labels)), *apply, name@);
            &&& final(output)@ == o.state.out
            &&& *final(labels) == o.state.labels
            &&& o.state.varr == variable_arrays@
            &&& result_view(r) == o.result
        }),
    decreases apply, 0nat,
{
    if apply.args.len() != 2 {
        proof {
            reveal_strlit("2 arguments");
        }
        return Err(arity_error(name, "2 arguments", apply.args.len()));
    }
    proof {
        reveal_strlit("xmm0");
        reveal_strlit("xmm1");
    }
    match load_f32_proc_argument_into_register(&apply.args[0], "xmm0", variables, arrays, variable_arrays, labels, output) {
        Ok(()) => {},
        Err(e) => return Err(e),
    }
    load_f32_proc_argument_into_register(&apply.args[1], "xmm1", variables, arrays, variable_arrays, labels, output)
}

/// `rax + rbx` into `rax`.
pub fn compile_u64_add_direct(apply: &ProcTermApply, variables: &NameMap<i32>, labels: &mut LabelCounters, output: &mut String) -> (r:
    Result<(), CompileError>)
    ensures
        ({
            let o = c_then_emit(
                u64_operands(variables@, Code { out: old(output)@, labels: *old(labels) }, *apply, "u64_add"@),
                u64_tail("u64_add"@)->0,
            );
            &&& final(output)@ == o.code.out
            &&& *final(labels) == o.code.labels
            &&& result_view(r) == o.result
        }),
{
    proof {
        reveal_strlit("u64_add");
    }
    match u64_operands_in(apply, "u64_add", variables, labels, output) {
        Ok(()) => {},
        Err(e) => return Err(e),
    }
    emit_u64_tail(output, "u64_add");
    Ok(())
}

/// `rax - rbx` into `rax`.
pub fn compile_u64_sub_direct(apply: &ProcTermApply, variables: &NameMap<i32>, labels: &mut LabelCounters, output: &mut String) -> (r:
    Result<(), CompileError>)
    ensures
        ({
            let o = c_then_emit(
                u64_operands(variables@, Code { out: old(output)@, labels: *old(labels) }, *apply, "u64_sub"@),
                u64_tail("u64_sub"@)->0,
            );
            &&& final(output)@ == o.code.out
            &&& *final(labels) == o.code.labels
            &&& result_view(r) == o.result
        }),
{
    proof {
        reveal_strlit("u64_sub");
    }
    match u64_operands_in(apply, "u64_sub", variables, labels, output) {
        Ok(()) => {},
        Err(e) => return Err(e),
    }
    emit_u64_tail(output, "u64_sub");
    Ok(())
}

/// `rax * rbx` into `rax`.
pub fn compile_u64_mul_direct(apply: &ProcTermApply, variables: &NameMap<i32>, labels: &mut LabelCounters, output: &mut String) -> (r:
    Result<(), CompileError>)
    ensures
        ({
            let o = c_then_emit(
                u64_operands(variables@, Code { out: old(output)@, labels: *old(labels) }, *apply, "u64_mul"@),
                u64_tail("u64_mul"@)->0,
            );
            &&& final(output)@ == o.code.out
            &&& *final(labels) == o.code.labels
            &&& result_view(r) == o.result
        }),
{
    proof {
        reveal_strlit("u64_mul");
    }
    match u64_operands_in(apply, "u64_mul", variables, labels, output) {
        Ok(()) => {},
        Err(e) => return Err(e),
    }
    emit_u64_tail(output, "u64_mul");
    Ok(())
}

/// The quotient of `rax` by `rbx` into `rax`.
pub fn compile_u64_div_direct(apply: &ProcTermApply, variables: &NameMap<i32>, labels: &mut LabelCounters, output: &mut String) -> (r:
    Result<(), CompileError>)
    ensures
        ({
            let o = c_then_emit(
                u64_operands(variables@, Code { out: old(output)@, labels: *old(labels) }, *apply, "u64_div"@),
                u64_tail("u64_div"@)->0,
            );
            &&& final(output)@ == o.code.out
            &&& *final(labels) == o.code.labels
            &&& result_view(r) == o.result
        }),
{
    proof {
        reveal_strlit("u64_div");
    }
    match u64_operands_in(apply, "u64_div", variables, labels, output) {
        Ok(()) => {},
        Err(e) => return Err(e),
    }
    emit_u64_tail(output, "u64_div");
    Ok(())
}

/// The remainder of `rax` by `rbx` into `rax`.
pub fn compile_u64_mod_direct(apply: &ProcTermApply, variables: &NameMap<i32>, labels: &mut LabelCounters, output: &mut String) -> (r:
    Result<(), CompileError>)
    ensures
        ({
            let o = c_then_emit(
                u64_operands(variables@, Code { out: old(output)@, labels: *old(labels) }, *apply, "u64_mod"@),
                u64_tail("u64_mod"@)->0,
            );
            &&& final(output)@ == o.code.out
            &&& *final(labels) == o.code.labels
            &&& result_view(r) == o.result
        }),
{
    proof {
        reveal_strlit("u64_mod");
    }
    match u64_operands_in(apply, "u64_mod", variables, labels, output) {
        Ok(()) => {},
        Err(e) => return Err(e),
    }
    emit_u64_tail(output, "u64_mod");
    Ok(())
}

/// 1 into `rax` when `rax` and `rbx` are equal, else 0.
pub fn compile_u64_eq_direct(apply: &ProcTermApply, variables: &NameMap<i32>, labels: &mut LabelCounters, output: &mut String) -> (r:
    Result<(), CompileError>)
    ensures
        ({
            let o = c_then_emit(
                u64_operands(variables@, Code { out: old(output)@, labels: *old(labels) }, *apply, "u64_eq"@),
                u64_tail("u64_eq"@)->0,
            );
            &&& final(output)@ == o.code.out
            &&& *final(labels) == o.code.labels
            &&& result_view(r) == o.result
        }),
{
    proof {
        reveal_strlit("u64_eq");
    }
    match u64_operands_in(apply, "u64_eq", variables, labels, output) {
        Ok(()) => {},
        Err(e) => return Err(e),
    }
    emit_u64_tail(output, "u64_eq");
    Ok(())
}

/// The `f32` sum of the operands, as bits in `rax`.
pub fn compile_f32_add_direct(
    apply: &ProcTermApply,
    variables: &NameMap<i32>,
    arrays: &NameMap<ArrayInfo>,
    variable_arrays: &NameMap<String>,
    labels: &mut LabelCounters,
    output: &mut String,
) -> (r: Result<(), CompileError>)
    requires
        arrays_wf(arrays@),
    ensures
        ({
            let o = then_emit(
                f32_operands(arrays@, variables@, xs(old(output)@, variable_arrays@, *old(labels)), *apply, "f32_add"@),
                line(f32_instruction("f32_add"@)->0) + f32_result_tail(),
            );
            &&& final(output)@ == o.state.out
            &&& *final(labels) == o.state.labels
            &&& result_view(r) == o.result
        }),
{
    proof {
        reveal_strlit("f32_add");
    }
    match f32_operands_in(apply, "f32_add", variables, arrays, variable_arrays, labels, output) {
        Ok(()) => {},
        Err(e) => return Err(e),
    }
    emit_f32_instruction(output, "f32_add");
    emit_f32_result(output);
    Ok(())
}

/// The `f32` difference of the operands, as bits in `rax`.
pub fn compile_f32_sub_direct(
    apply: &ProcTermApply,
    variables: &NameMap<i32>,
    arrays: &NameMap<ArrayInfo>,
    variable_arrays: &NameMap<String>,
    labels: &mut LabelCounters,
    output: &mut String,
) -> (r: Result<(), CompileError>)
    requires
        arrays_wf(arrays@),
    ensures
        ({
            let o = then_emit(
                f32_operands(arrays@, variables@, xs(old(output)@, variable_arrays@, *old(labels)), *apply, "f32_sub"@),
                line(f32_instruction("f32_sub"@)->0) + f32_result_tail(),
            );
            &&& final(output)@ == o.state.out
            &&& *final(labels) == o.state.labels
            &&& result_view(r) == o.result
        }),
{
    proof {
        reveal_strlit("f32_sub");
    }
    match f32_operands_in(apply, "f32_sub", variables, arrays, variable_arrays, labels, output) {
        Ok(()) => {},
        Err(e) => return Err(e),
    }
    emit_f32_instruction(output, "f32_sub");
    emit_f32_result(output);
    Ok(())
}

/// The `f32` product of the operands, as bits in `rax`.
pub fn compile_f32_mul_direct(
    apply: &ProcTermApply,
    variables: &NameMap<i32>,
    arrays: &NameMap<ArrayInfo>,
    variable_arrays: &NameMap<String>,
    labels: &mut LabelCounters,
    output: &mut String,
) -> (r: Result<(), CompileError>)
    requires
        arrays_wf(arrays@),
    ensures
        ({
            let o = then_emit(
                f32_operands(arrays@, variables@, xs(old(output)@, variable_arrays@, *old(labels)), *apply, "f32_mul"@),
                line(f32_instruction("f32_mul"@)->0) + f32_result_tail(),
            );
            &&& final(output)@ == o.state.out
            &&& *final(labels) == o.state.labels
            &&& result_view(r) == o.result
        }),
{
    proof {
        reveal_strlit("f32_mul");
    }
    match f32_operands_in(apply, "f32_mul", variables, arrays, variable_arrays, labels, output) {
        Ok(()) => {},
        Err(e) => return Err(e),
    }
    emit_f32_instruction(output, "f32_mul");
    emit_f32_result(output);
    Ok(())
}

/// The `f32` quotient of the operands, as bits in `rax`.
pub fn compile_f32_div_direct(
    apply: &ProcTermApply,
    variables: &NameMap<i32>,
    arrays: &NameMap<ArrayInfo>,
    variable_arrays: &NameMap<String>,
    labels: &mut LabelCounters,
    output: &mut String,
) -> (r: Result<(), CompileError>)
    requires
        arrays_wf(arrays@),
    ensures
        ({
            let o = then_emit(
                f32_operands(arrays@, variables@, xs(old(output)@, variable_arrays@, *old(labels)), *apply, "f32_div"@),
                line(f32_instruction("f32_div"@)->0) + f32_result_tail(),
            );
            &&& final(output)@ == o.state.out
            &&& *final(labels) == o.state.labels
            &&& result_view(r) == o.result
        }),
{
    proof {
        reveal_strlit("f32_div");
    }
    match f32_operands_in(apply, "f32_div", variables, arrays, variable_arrays, labels, output) {
        Ok(()) => {},
        Err(e) => return Err(e),
    }
    emit_f32_instruction(output, "f32_div");
    emit_f32_result(output);
    Ok(())
}

/// Converts an `f32` operand to an integer in `rax`, truncating.
pub fn compile_f32_to_u64_direct(
    apply: &ProcTermApply,
    variables: &NameMap<i32>,
    arrays: &NameMap<ArrayInfo>,
    variable_arrays: &NameMap<String>,
    labels: &mut LabelCounters,
    output: &mut String,
) -> (r: Result<(), CompileError>)
    requires
        arrays_wf(arrays@),
    ensures
        ({
            let o = then_emit(
                one_operand(arrays@, variables@, xs(old(output)@, variable_arrays@, *old(labels)), *apply, "f32_to_u64"@, true),
                line("cvttss2si rax, xmm0"@),
            );
            &&& final(output)@ == o.state.out
            &&& *final(labels) == o.state.labels
            &&& result_view(r) == o.result
        }),
    decreases apply, 0nat,
{
    proof {
        reveal_strlit("f32_to_u64");
        reveal_strlit("1 argument");
        reveal_strlit("xmm0");
    }
    if apply.args.len() != 1 {
        return Err(arity_error("f32_to_u64", "1 argument", apply.args.len()));
    }
    match load_f32_proc_argument_into_register(&apply.args[0], "xmm0", variables, arrays, variable_arrays, labels, output) {
        Ok(()) => {},
        Err(e) => return Err(e),
    }
    emit(output, "cvttss2si rax, xmm0");
    Ok(())
}

/// Converts an integer operand to the bits of an `f32` in `rax`.
pub fn compile_u64_to_f32_direct(
    apply: &ProcTermApply,
    variables: &NameMap<i32>,
    arrays: &NameMap<ArrayInfo>,
    variable_arrays: &NameMap<String>,
    labels: &mut LabelCounters,
    output: &mut String,
) -> (r: Result<(), CompileError>)
    ensures
        ({
            let o = then_emit(
                one_operand(arrays@, variables@, xs(old(output)@, variable_arrays@, *old(labels)), *apply, "u64_to_f32"@, false),
                line("cvtsi2ss xmm0, rax"@) + f32_result_tail(),
            );
            &&& final(output)@ == o.state.out
            &&& *final(labels) == o.state.labels
            &&& o.state.varr == variable_arrays@
            &&& result_view(r) == o.result
        }),
    decreases apply, 0nat,
{
    proof {
        reveal_strlit("u64_to_f32");
        reveal_strlit("1 argument");
        reveal_strlit("rax");
    }
    if apply.args.len() != 1 {
        return Err(arity_error("u64_to_f32", "1 argument", apply.args.len()));
    }
    match load_proc_argument_into_register(&apply.args[0], "rax", variables, labels, output) {
        Ok(()) => {},
        Err(e) => return Err(e),
    }
    emit(output, "cvtsi2ss xmm0, rax");
    emit_f32_result(output);
    Ok(())
}

/// Loads the one operand of the `u64` builtin into `rax`.
pub fn compile_u64_direct(apply: &ProcTermApply, variables: &NameMap<i32>, labels: &mut LabelCounters, output: &mut String) -> (r:
    Result<(), CompileError>)
    ensures
        ({
            let o = one_operand(Map::empty(), variables@, xs(old(output)@, Map::empty(), *old(labels)), *apply, "u64"@, false);
            &&& final(output)@ == o.state.out
            &&& *final(labels) == o.state.labels
            &&& result_view(r) == o.result
        }),
    decreases apply, 0nat,
{
    proof {
        reveal_strlit("u64");
        reveal_strlit("1 argument");
        reveal_strlit("rax");
    }
    if apply.args.len() != 1 {
        return Err(arity_error("u64", "1 argument", apply.args.len()));
    }
    load_proc_argument_into_register(&apply.args[0], "rax", variables, labels, output)
}

/// The `f32` builtin on a literal: the bits of its value into `rax`.
pub fn compile_f32_direct(apply: &ProcTermApply, variables: &NameMap<i32>, output: &mut String) -> (r: Result<
    (),
    CompileError,
>)
    ensures
        final(output)@ == old(output)@ + f32_literal(*apply).0,
        result_view(r) == f32_literal(*apply).1,
{
    proof {
        reveal_strlit("f32");
        reveal_strlit("1 argument");
        reveal_strlit("mov eax, ");
        reveal_strlit("f32 expects numeric literal, got: ");
    }
    if apply.args.len() != 1 {
        return Err(arity_error("f32", "1 argument", apply.args.len()));
    }
    match &apply.args[0] {
        ProcTerm::Number(num) => {
            let ghost before = output@;
            let bits: u32 = match num.float_bits {
                Some(v) => v,
                None => 0,
            };
            let h = hex8_text(bits);
            let a = join2("mov eax, ", h.as_str());
            emit(output, a.as_str());
            emit(output, "mov rax, rax");
            assert(output@ =~= before + f32_literal(*apply).0);
            Ok(())
        },
        _ => Err(
            CompileError::UnsupportedConstruct(
                join2("f32 expects numeric literal, got: ", proc_term_kind_text(&apply.args[0])),
            ),
        ),
    }
}

/// An `f32` operation whose result a `#let` stores at `offset`.
pub fn compile_f32_arithmetic_for_let(
    apply: &ProcTermApply,
    builtin: &str,
    variables: &NameMap<i32>,
    arrays: &NameMap<ArrayInfo>,
    variable_arrays: &NameMap<String>,
    labels: &mut LabelCounters,
    output: &mut String,
    offset: i32,
) -> (r: Result<(), CompileError>)
    requires
        arrays_wf(arrays@),
    ensures
        ({
            let o = f32_let(arrays@, variables@, xs(old(output)@, variable_arrays@, *old(labels)), *apply, builtin@, offset);
            &&& final(output)@ == o.state.out
            &&& *final(labels) == o.state.labels
            &&& o.state.varr == variable_arrays@
            &&& result_view(r) == o.result
        }),
    decreases apply, 1nat,
{
    match f32_operands_in(apply, builtin, variables, arrays, variable_arrays, labels, output) {
        Ok(()) => {},
        Err(e) => return Err(e),
    }
    proof {
        reveal_strlit("f32_add");
        reveal_strlit("f32_sub");
        reveal_strlit("f32_mul");
        reveal_strlit("f32_div");
        reveal_strlit("Unknown f32 operation: ");
        reveal_strlit("movss ");
        reveal_strlit(", xmm0");
    }
    if is_text(builtin, "f32_add") || is_text(builtin, "f32_sub") || is_text(builtin, "f32_mul") || is_text(
        builtin,
        "f32_div",
    ) {
        let ghost before = output@;
        emit_f32_instruction(output, builtin);
        let d = dslot_text(offset);
        let a = join3("movss ", d.as_str(), ", xmm0");
        emit(output, a.as_str());
        assert(output@ =~= before + (line(f32_instruction(builtin@)->0) + line("movss "@ + dslot(offset) + ", xmm0"@)));
        Ok(())
    } else {
        Err(CompileError::UnsupportedConstruct(join2("Unknown f32 operation: ", builtin)))
    }
}

/// A remainder whose result a `#let` stores at `offset`.
pub fn compile_u64_mod_for_let(
    apply: &ProcTermApply,
    variables: &NameMap<i32>,
    labels: &mut LabelCounters,
    output: &mut String,
    offset: i32,
) -> (r: Result<(), CompileError>)
    ensures
        ({
            let o = u64_mod_let(variables@, Code { out: old(output)@, labels: *old(labels) }, *apply, offset);
            &&& final(output)@ == o.code.out
            &&& *final(labels) == o.code.labels
            &&& result_view(r) == o.result
        }),
    decreases apply, 1nat,
{
    proof {
        reveal_strlit("u64_mod");
        reveal_strlit("rdx");
    }
    match u64_operands_in(apply, "u64_mod", variables, labels, output) {
        Ok(()) => {},
        Err(e) => return Err(e),
    }
    let ghost before = output@;
    emit(output, "xor rdx, rdx");
    emit(output, "div rbx");
    let st = slot_text(offset);
    emit_mov(output, st.as_str(), "rdx");
    assert(output@ =~= before + (line("xor rdx, rdx"@) + line("div rbx"@) + mov(slot(offset), "rdx"@)));
    Ok(())
}

fn emit_access_index(output: &mut String, index: &ProcTerm, es: usize, variables: &NameMap<i32>) -> (r: Result<
    (),
    CompileError,
>)
    ensures
        match *index {
            ProcTerm::Number(n) => r is Ok && final(output)@ == old(output)@ + if crate::arrays::index_offset(n, es as nat) > 0 {
                line("add rax, "@ + decimal(crate::arrays::index_offset(n, es as nat)))
            } else {
                Seq::empty()
            },
            ProcTerm::Variable(v) => r is Ok && final(output)@ == old(output)@ + if variables@.contains_key(v.variable@) {
                mov("rbx"@, slot(variables@[v.variable@])) + mov("rcx"@, decimal(es as nat)) + line("imul rbx, rcx"@)
                    + line("add rax, rbx"@)
            } else {
                Seq::empty()
            },
            _ => r matches Err(e) && e@ == err("Unsupported index type in field access: "@ + proc_term_kind(*index))
                && final(output)@ == old(output)@,
        },
{
    let ghost before = output@;
    proof {
        reveal_strlit("add rax, ");
        reveal_strlit("rbx");
        reveal_strlit("rcx");
        reveal_strlit("Unsupported index type in field access: ");
    }
    match index {
        ProcTerm::Number(num) => {
            let idx_text = crate::arrays::parse_number(num.number.as_str());
            let k: u128 = match crate::compile_text::parse_usize_text(idx_text.as_str()) {
                Some(v) => v as u128,
                None => 0,
            };
            assert(k * es <= u128::MAX) by (nonlinear_arith)
                requires
                    k <= usize::MAX,
                    es <= usize::MAX,
            ;
            let product = k * (es as u128);
            if product > 0 {
                let t = crate::text::nat_to_string(product);
                let a = join2("add rax, ", t.as_str());
                emit(output, a.as_str());
            } else {
                assert(output@ =~= before + Seq::<char>::empty());
            }
            Ok(())
        },
        ProcTerm::Variable(var) => {
            match variables.get(var.variable.as_str()) {
                Some(off) => {
                    let st = slot_text(*off);
                    emit_mov(output, "rbx", st.as_str());
                    let e = crate::compile_text::usize_text(es);
                    emit_mov(output, "rcx", e.as_str());
                    emit(output, "imul rbx, rcx");
                    emit(output, "add rax, rbx");
                    assert(output@ =~= before + (mov("rbx"@, slot(variables@[var.variable@])) + mov("rcx"@, decimal(es as nat))
                        + line("imul rbx, rcx"@) + line("add rax, rbx"@)));
                },
                None => {
                    assert(output@ =~= before + Seq::<char>::empty());
                },
            }
            Ok(())
        },
        _ => Err(
            CompileError::UnsupportedConstruct(
                join2("Unsupported index type in field access: ", proc_term_kind_text(index)),
            ),
        ),
    }
}

/// The address of `object.field index` into `rax`, or the size of `object` for `#len`.
pub fn compile_proc_field_access(
    field_access: &ProcTermFieldAccess,
    variables: &NameMap<i32>,
    arrays: &NameMap<ArrayInfo>,
    variable_arrays: &NameMap<String>,
    output: &mut String,
) -> (r: Result<(), CompileError>)
    requires
        arrays_wf(arrays@),
    ensures
        final(output)@ == old(output)@ + field_access_code(arrays@, variables@, variable_arrays@, *field_access).0,
        result_view(r) == field_access_code(arrays@, variables@, variable_arrays@, *field_access).1,
{
    let ghost before = output@;
    let object_name = field_access.object_name();
    let field_name = field_access.field_name();
    proof {
        reveal_strlit("#len");
        reveal_strlit("_size");
        reveal_strlit("_");
        reveal_strlit("_ptr");
        reveal_strlit("rax");
        reveal_strlit("Array size not found for: ");
        reveal_strlit("Unknown variable: ");
    }
    if is_text(field_name, "#len") {
        let size_var = join2(object_name, "_size");
        match variables.get(size_var.as_str()) {
            Some(size_offset) => {
                let st = slot_text(*size_offset);
                emit_mov(output, "rax", st.as_str());
                return Ok(());
            },
            None => {
                return Err(CompileError::UnsupportedConstruct(join2("Array size not found for: ", object_name)));
            },
        }
    }
    let mut ptr = String::from_str(object_name);
    ptr.append("_");
    ptr.append(field_name);
    ptr.append("_ptr");
    assert(ptr@ =~= object_name@ + "_"@ + field_name@ + "_ptr"@);
    match variables.get(ptr.as_str()) {
        Some(ptr_offset) => {
            let st = slot_text(*ptr_offset);
            emit_mov(output, "rax", st.as_str());
            let ghost head = output@;
            match &field_access.index {
                Some(index_term) => match variable_arrays.get(object_name) {
                    Some(array_type) => match arrays.get(array_type.as_str()) {
                        Some(array_info) => {
                            let element_size = match crate::arrays::get_element_size(
                                array_info.field_types.as_slice(),
                                array_info.field_names.as_slice(),
                                field_name,
                            ) {
                                Ok(es) => es,
                                Err(e) => return Err(e),
                            };
                            return emit_access_index(output, index_term, element_size, variables);
                        },
                        None => {},
                    },
                    None => {},
                },
                None => {},
            }
            Ok(())
        },
        None => Err(CompileError::UnsupportedConstruct(join2("Unknown variable: ", object_name))),
    }
}

/// Emits the load through `rax` for a dereferenced term.
fn emit_deref_load(
    output: &mut String,
    term: &ProcTerm,
    arrays: &NameMap<ArrayInfo>,
    variable_arrays: &NameMap<String>,
)
    requires
        arrays_wf(arrays@),
    ensures
        final(output)@ == old(output)@ + deref_load(arrays@, variable_arrays@, *term),
{
    proof {
        reveal_strlit("f32");
        reveal_strlit("u32");
        reveal_strlit("i32");
        reveal_strlit("u16");
        reveal_strlit("i16");
        reveal_strlit("u8");
        reveal_strlit("i8");
    }
    match term {
        ProcTerm::FieldAccess(field_access) => match variable_arrays.get(field_access.object.as_str()) {
            Some(array_type) => match arrays.get(array_type.as_str()) {
                Some(array_info) => match get_field_type(
                    array_info.field_types.as_slice(),
                    array_info.field_names.as_slice(),
                    field_access.field.as_str(),
                ) {
                    Ok(field_type) => {
                        let t = field_type.as_str();
                        if is_text(t, "f32") || is_text(t, "u32") || is_text(t, "i32") {
                            emit(output, "mov eax, dword ptr [rax]");
                        } else if is_text(t, "u16") || is_text(t, "i16") {
                            emit(output, "movzx rax, word ptr [rax]");
                        } else if is_text(t, "u8") || is_text(t, "i8") {
                            emit(output, "movzx rax, byte ptr [rax]");
                        } else {
                            emit(output, "mov rax, qword ptr [rax]");
                        }
                        return;
                    },
                    Err(_) => {},
                },
                None => {},
            },
            None => {},
        },
        _ => {},
    }
    emit(output, "mov rax, qword ptr [rax]");
}

/// `term.*`: loads through the address that the term computes.
pub fn compile_proc_dereference(
    dereference: &ProcTermDereference,
    variables: &NameMap<i32>,
    reference_variables: &NameMap<String>,
    builtins: &NameMap<String>,
    arrays: &NameMap<ArrayInfo>,
    variable_arrays: &mut NameMap<String>,
    labels: &mut LabelCounters,
    output: &mut String,
) -> (r: Result<(), CompileError>)
    requires
        arrays_wf(arrays@),
    ensures
        ({
            let o = deref_c(
                Env { builtins: builtins@, arrays: arrays@ },
                variables@,
                reference_variables@,
                xs(old(output)@, old(variable_arrays)@, *old(labels)),
                *dereference,
            );
            &&& final(output)@ == o.state.out
            &&& final(variable_arrays)@ == o.state.varr
            &&& *final(labels) == o.state.labels
            &&& result_view(r) == o.result
        }),
    decreases dereference, 0nat,
{
    match compile_proc_term(
        &dereference.term,
        variables,
        reference_variables,
        builtins,
        arrays,
        variable_arrays,
        labels,
        output,
    ) {
        Ok(()) => {},
        Err(e) => return Err(e),
    }
    emit_deref_load(output, &dereference.term, arrays, variable_arrays);
    Ok(())
}

fn size_operand_in(constructor_call: &ProcTermConstructorCall, variables: &NameMap<i32>, output: &mut String) -> (r:
    Result<String, CompileError>)
    ensures
        final(output)@ == old(output)@ + size_operand(*constructor_call, variables@).0,
        match size_operand(*constructor_call, variables@).1 {
            Ok(t) => r matches Ok(v) && v@ == t,
            Err(e) => r matches Err(x) && x@ == e,
        },
{
    proof {
        reveal_strlit("Missing size argument for array constructor");
        reveal_strlit("Unknown variable in array size: ");
        reveal_strlit("Unsupported size argument type: ");
        reveal_strlit("rsi");
    }
    if constructor_call.args.len() == 0 {
        return Err(
            CompileError::UnsupportedConstruct(String::from_str("Missing size argument for array constructor")),
        );
    }
    match &constructor_call.args[0] {
        ProcTerm::Number(num) => Ok(num.number.clone()),
        ProcTerm::Variable(var) => match variables.get(var.variable.as_str()) {
            Some(offset) => {
                let st = slot_text(*offset);
                emit_mov(output, "rsi", st.as_str());
                Ok(String::from_str("rsi"))
            },
            None => Err(
                CompileError::UnsupportedConstruct(join2("Unknown variable in array size: ", var.variable.as_str())),
            ),
        },
        _ => Err(
            CompileError::UnsupportedConstruct(
                join2("Unsupported size argument type: ", proc_term_kind_text(&constructor_call.args[0])),
            ),
        ),
    }
}

/// `Type::new_with_size n`: allocates the arrays of the fields of `Type`.
pub fn compile_proc_constructor_call(
    constructor_call: &ProcTermConstructorCall,
    arrays: &NameMap<ArrayInfo>,
    output: &mut String,
    stack_offset: &mut i32,
    variables: &mut NameMap<i32>,
) -> (r: Result<(), CompileError>)
    requires
        arrays_wf(arrays@),
    ensures
        ({
            let a = constructor_code(arrays@, *constructor_call, None, old(output)@, *old(stack_offset), old(variables)@);
            &&& final(output)@ == a.out
            &&& *final(stack_offset) == a.offset
            &&& final(variables)@ == a.vars
            &&& result_view(r) == a.result
        }),
{
    proof {
        reveal_strlit("::");
        reveal_strlit("::new_with_size");
        reveal_strlit("Array type not found: ");
        reveal_strlit("Constructor call not yet implemented: ");
    }
    let name = join3(constructor_call.array_type.as_str(), "::", constructor_call.method.as_str());
    if contains_exec(name.as_str(), "::new_with_size") {
        match arrays.get(constructor_call.array_type.as_str()) {
            Some(array_info) => {
                let size = match size_operand_in(constructor_call, variables, output) {
                    Ok(t) => t,
                    Err(e) => return Err(e),
                };
                let mut scratch: NameMap<ArrayInfo> = NameMap::new();
                generate_soa_allocation(
                    constructor_call.array_type.as_str(),
                    array_info,
                    size.as_str(),
                    output,
                    stack_offset,
                    variables,
                    &mut scratch,
                )
            },
            None => Err(
                CompileError::UnsupportedConstruct(join2("Array type not found: ", constructor_call.array_type.as_str())),
            ),
        }
    } else {
        Err(CompileError::UnsupportedConstruct(join2("Constructor call not yet implemented: ", name.as_str())))
    }
}

/// `#let v = Type::new_with_size n;`: allocates the arrays of the fields of `Type` under the
/// name `v`, and records that `v` holds a `Type`.
pub fn compile_proc_constructor_call_with_var(
    constructor_call: &ProcTermConstructorCall,
    var_name: &str,
    arrays: &NameMap<ArrayInfo>,
    output: &mut String,
    stack_offset: &mut i32,
    variables: &mut NameMap<i32>,
    variable_arrays: &mut NameMap<String>,
) -> (r: Result<(), CompileError>)
    requires
        arrays_wf(arrays@),
    ensures
        ({
            let a = constructor_code(arrays@, *constructor_call, Some(var_name@), old(output)@, *old(stack_offset), old(variables)@);
            &&& final(output)@ == a.out
            &&& *final(stack_offset) == a.offset
            &&& final(variables)@ == a.vars
            &&& result_view(r) == a.result
        }),
        final(variable_arrays)@ == if contains_text(constructor_name(*constructor_call), "::new_with_size"@)
            && arrays@.contains_key(constructor_call.array_type@) {
            old(variable_arrays)@.insert(var_name@, constructor_call.array_type)
        } else {
            old(variable_arrays)@
        },
{
    proof {
        reveal_strlit("::");
        reveal_strlit("::new_with_size");
        reveal_strlit("Array type not found: ");
        reveal_strlit("Constructor call not yet implemented: ");
    }
    let name = join3(constructor_call.array_type.as_str(), "::", constructor_call.method.as_str());
    if contains_exec(name.as_str(), "::new_with_size") {
        match arrays.get(constructor_call.array_type.as_str()) {
            Some(array_info) => {
                variable_arrays.insert(var_name.to_owned(), constructor_call.array_type.clone());
                let size = match size_operand_in(constructor_call, variables, output) {
                    Ok(t) => t,
                    Err(e) => return Err(e),
                };
                generate_soa_allocation_with_var(var_name, array_info, size.as_str(), output, stack_offset, variables)
            },
            None => Err(
                CompileError::UnsupportedConstruct(join2("Array type not found: ", constructor_call.array_type.as_str())),
            ),
        }
    } else {
        Err(CompileError::UnsupportedConstruct(join2("Constructor call not yet implemented: ", name.as_str())))
    }
}

pub fn label_text(prefix: &str, id: usize) -> (r: String)
    ensures
        r@ == prefix@ + decimal(id as nat),
{
    let t = crate::compile_text::usize_text(id);
    join2(prefix, t.as_str())
}

/// A conditional; within a loop, `brk` is the label that `#break` jumps to.
fn compile_proc_if_in(
    if_expr: &ProcTermIf,
    variables: &NameMap<i32>,
    reference_variables: &NameMap<String>,
    builtins: &NameMap<String>,
    arrays: &NameMap<ArrayInfo>,
    variable_arrays: &mut NameMap<String>,
    brk: Option<&str>,
    labels: &mut LabelCounters,
    output: &mut String,
) -> (r: Result<(), CompileError>)
    requires
        arrays_wf(arrays@),
    ensures
        ({
            let o = if_c(
                Env { builtins: builtins@, arrays: arrays@ },
                variables@,
                reference_variables@,
                xs(old(output)@, old(variable_arrays)@, *old(labels)),
                *if_expr,
                opt_text(brk),
            );
            &&& final(output)@ == o.state.out
            &&& final(variable_arrays)@ == o.state.varr
            &&& *final(labels) == o.state.labels
            &&& result_view(r) == o.result
        }),
    decreases if_expr, 0nat,
{
    proof {
        reveal_strlit("if_break_else_");
        reveal_strlit("if_break_end_");
        reveal_strlit("if_else_");
        reveal_strlit("if_end_");
        reveal_strlit("je ");
        reveal_strlit("jmp ");
    }
    let else_label;
    let end_label;
    match brk {
        Some(_) => {
            let id = labels.break_if_labels;
            labels.break_if_labels = next_label_exec(id);
            else_label = label_text("if_break_else_", id);
            end_label = label_text("if_break_end_", id);
        },
        None => {
            let id = labels.if_labels;
            labels.if_labels = next_label_exec(id);
            else_label = label_text("if_else_", id);
            end_label = label_text("if_end_", id);
        },
    }
    let mut local_variables = variables.duplicate();
    let mut local_references = reference_variables.duplicate_text();
    let mut zero: i32 = 0;
    match compile_statements_in(
        &if_expr.condition,
        &mut local_variables,
        &mut local_references,
        builtins,
        arrays,
        variable_arrays,
        &mut zero,
        brk,
        labels,
        output,
    ) {
        Ok(()) => {},
        Err(e) => return Err(e),
    }
    let ghost cond_out = output@;
    emit(output, "cmp rax, 0");
    if if_expr.else_clause.is_some() {
        let j = join2("je ", else_label.as_str());
        emit(output, j.as_str());
        assert(output@ =~= cond_out + (line("cmp rax, 0"@) + line("je "@ + else_label@)));
    } else {
        let j = join2("je ", end_label.as_str());
        emit(output, j.as_str());
        assert(output@ =~= cond_out + (line("cmp rax, 0"@) + line("je "@ + end_label@)));
    }
    let mut then_variables = local_variables.duplicate();
    let mut then_references = local_references.duplicate_text();
    let mut then_zero: i32 = 0;
    match compile_statements_in(
        &if_expr.then_body,
        &mut then_variables,
        &mut then_references,
        builtins,
        arrays,
        variable_arrays,
        &mut then_zero,
        brk,
        labels,
        output,
    ) {
        Ok(()) => {},
        Err(e) => return Err(e),
    }
    match &if_expr.else_clause {
        Some(else_clause) => {
            let ghost then_out = output@;
            let j = join2("jmp ", end_label.as_str());
            emit(output, j.as_str());
            emit_label(output, else_label.as_str());
            assert(output@ =~= then_out + (line("jmp "@ + end_label@) + else_label@ + ":\n"@));
            let mut else_variables = local_variables.duplicate();
            let mut else_references = local_references.duplicate_text();
            let mut else_zero: i32 = 0;
            match compile_statements_in(
                &else_clause.else_body,
                &mut else_variables,
                &mut else_references,
                builtins,
                arrays,
                variable_arrays,
                &mut else_zero,
                brk,
                labels,
                output,
            ) {
                Ok(()) => {},
                Err(e) => return Err(e),
            }
        },
        None => {},
    }
    emit_label(output, end_label.as_str());
    Ok(())
}

/// Compiles `#if`: the condition's value in `rax` decides, 0 being false.
pub fn compile_proc_if(
    if_expr: &ProcTermIf,
    variables: &NameMap<i32>,
    reference_variables: &NameMap<String>,
    builtins: &NameMap<String>,
    arrays: &NameMap<ArrayInfo>,
    variable_arrays: &mut NameMap<String>,
    labels: &mut LabelCounters,
    output: &mut String,
) -> (r: Result<(), CompileError>)
    requires
        arrays_wf(arrays@),
    ensures
        ({
            let o = if_c(
                Env { builtins: builtins@, arrays: arrays@ },
                variables@,
                reference_variables@,
                xs(old(output)@, old(variable_arrays)@, *old(labels)),
                *if_expr,
                None,
            );
            &&& final(output)@ == o.state.out
            &&& final(variable_arrays)@ == o.state.varr
            &&& *final(labels) == o.state.labels
            &&& result_view(r) == o.result
        }),
{
    compile_proc_if_in(if_expr, variables, reference_variables, builtins, arrays, variable_arrays, None, labels, output)
}

/// A sequence of statements; within a loop, `brk` is the label that `#break` jumps to.
fn compile_statements_in(
    statements: &Statements,
    variables: &mut NameMap<i32>,
    reference_variables: &mut NameMap<String>,
    builtins: &NameMap<String>,
    arrays: &NameMap<ArrayInfo>,
    variable_arrays: &mut NameMap<String>,
    stack_offset: &mut i32,
    brk: Option<&str>,
    labels: &mut LabelCounters,
    output: &mut String,
) -> (r: Result<(), CompileError>)
    requires
        arrays_wf(arrays@),
    ensures
        ({
            let o = stmts_c(
                Env { builtins: builtins@, arrays: arrays@ },
                frame_of(
                    old(variables)@,
                    old(reference_variables)@,
                    *old(stack_offset),
                    xs(old(output)@, old(variable_arrays)@, *old(labels)),
                ),
                *statements,
                opt_text(brk),
            );
            &&& final(variables)@ == o.frame.vars
            &&& final(reference_variables)@ == o.frame.refs
            &&& *final(stack_offset) == o.frame.offset
            &&& final(output)@ == o.frame.x.out
            &&& final(variable_arrays)@ == o.frame.x.varr
            &&& *final(labels) == o.frame.x.labels
            &&& result_view(r) == o.result
        }),
    decreases statements, 0nat,
{
    match statements {
        Statements::Then(then) => {
            match compile_statement_in(
                &then.head,
                variables,
                reference_variables,
                builtins,
                arrays,
                variable_arrays,
                stack_offset,
                brk,
                labels,
                output,
            ) {
                Ok(()) => {},
                Err(e) => return Err(e),
            }
            compile_statements_in(
                &then.tail,
                variables,
                reference_variables,
                builtins,
                arrays,
                variable_arrays,
                stack_offset,
                brk,
                labels,
                output,
            )
        },
        Statements::Statement(statement) => compile_statement_in(
            statement,
            variables,
            reference_variables,
            builtins,
            arrays,
            variable_arrays,
            stack_offset,
            brk,
            labels,
            output,
        ),
        Statements::Nil => Ok(()),
    }
}

/// A statement; within a loop, `brk` is the label that `#break` jumps to.
fn compile_statement_in(
    statement: &Statement,
    variables: &mut NameMap<i32>,
    reference_variables: &mut NameMap<String>,
    builtins: &NameMap<String>,
    arrays: &NameMap<ArrayInfo>,
    variable_arrays: &mut NameMap<String>,
    stack_offset: &mut i32,
    brk: Option<&str>,
    labels: &mut LabelCounters,
    output: &mut String,
) -> (r: Result<(), CompileError>)
    requires
        arrays_wf(arrays@),
    ensures
        ({
            let o = stmt_c(
                Env { builtins: builtins@, arrays: arrays@ },
                frame_of(
                    old(variables)@,
                    old(reference_variables)@,
                    *old(stack_offset),
                    xs(old(output)@, old(variable_arrays)@, *old(labels)),
                ),
                *statement,
                opt_text(brk),
            );
            &&& final(variables)@ == o.frame.vars
            &&& final(reference_variables)@ == o.frame.refs
            &&& *final(stack_offset) == o.frame.offset
            &&& final(output)@ == o.frame.x.out
            &&& final(variable_arrays)@ == o.frame.x.varr
            &&& *final(labels) == o.frame.x.labels
            &&& result_view(r) == o.result
        }),
    decreases statement, 3nat,
{
    proof {
        reveal_strlit("jmp ");
        reveal_strlit("Break statement outside of loop context");
        reveal_strlit("CallPtx");
    }
    match brk {
        Some(l) => match statement {
            Statement::Break(_) => {
                let j = join2("jmp ", l);
                emit(output, j.as_str());
                return Ok(());
            },
            Statement::Expr(ProcTerm::If(if_expr)) => {
                return compile_proc_if_in(
                    if_expr,
                    variables,
                    reference_variables,
                    builtins,
                    arrays,
                    variable_arrays,
                    brk,
                    labels,
                    output,
                );
            },
            _ => {
                return compile_plain_statement(
                    statement,
                    variables,
                    reference_variables,
                    builtins,
                    arrays,
                    variable_arrays,
                    stack_offset,
                    labels,
                    output,
                );
            },
        },
        None => {},
    }
    compile_plain_statement(
        statement,
        variables,
        reference_variables,
        builtins,
        arrays,
        variable_arrays,
        stack_offset,
        labels,
        output,
    )
}

/// A statement outside any loop.
fn compile_plain_statement(
    statement: &Statement,
    variables: &mut NameMap<i32>,
    reference_variables: &mut NameMap<String>,
    builtins: &NameMap<String>,
    arrays: &NameMap<ArrayInfo>,
    variable_arrays: &mut NameMap<String>,
    stack_offset: &mut i32,
    labels: &mut LabelCounters,
    output: &mut String,
) -> (r: Result<(), CompileError>)
    requires
        arrays_wf(arrays@),
    ensures
        ({
            let o = stmt_c(
                Env { builtins: builtins@, arrays: arrays@ },
                frame_of(
                    old(variables)@,
                    old(reference_variables)@,
                    *old(stack_offset),
                    xs(old(output)@, old(variable_arrays)@, *old(labels)),
                ),
                *statement,
                None,
            );
            &&& final(variables)@ == o.frame.vars
            &&& final(reference_variables)@ == o.frame.refs
            &&& *final(stack_offset) == o.frame.offset
            &&& final(output)@ == o.frame.x.out
            &&& final(variable_arrays)@ == o.frame.x.varr
            &&& *final(labels) == o.frame.x.labels
            &&& result_view(r) == o.result
        }),
    decreases statement, 2nat,
{
    match statement {
        Statement::Let(_) | Statement::LetMut(_) | Statement::Assign(_) | Statement::FieldAssign(_) => compile_binding_statement(
            statement,
            variables,
            reference_variables,
            builtins,
            arrays,
            variable_arrays,
            stack_offset,
            labels,
            output,
        ),
        _ => compile_other_statement(
            statement,
            variables,
            reference_variables,
            builtins,
            arrays,
            variable_arrays,
            stack_offset,
            labels,
            output,
        ),
    }
}

/// A statement that binds or assigns a variable.
fn compile_binding_statement(
    statement: &Statement,
    variables: &mut NameMap<i32>,
    reference_variables: &mut NameMap<String>,
    builtins: &NameMap<String>,
    arrays: &NameMap<ArrayInfo>,
    variable_arrays: &mut NameMap<String>,
    stack_offset: &mut i32,
    labels: &mut LabelCounters,
    output: &mut String,
) -> (r: Result<(), CompileError>)
    requires
        arrays_wf(arrays@),
        statement is Let || statement is LetMut || statement is Assign || statement is FieldAssign,
    ensures
        ({
            let o = stmt_c(
                Env { builtins: builtins@, arrays: arrays@ },
                frame_of(
                    old(variables)@,
                    old(reference_variables)@,
                    *old(stack_offset),
                    xs(old(output)@, old(variable_arrays)@, *old(labels)),
                ),
                *statement,
                None,
            );
            &&& final(variables)@ == o.frame.vars
            &&& final(reference_variables)@ == o.frame.refs
            &&& *final(stack_offset) == o.frame.offset
            &&& final(output)@ == o.frame.x.out
            &&& final(variable_arrays)@ == o.frame.x.varr
            &&& *final(labels) == o.frame.x.labels
            &&& result_view(r) == o.result
        }),
    decreases statement, 1nat,
{
    match statement {
        Statement::Let(_) => compile_let_arm(
            statement,
            variables,
            reference_variables,
            builtins,
            arrays,
            variable_arrays,
            stack_offset,
            labels,
            output,
        ),
        Statement::LetMut(_) => compile_let_mut_arm(
            statement,
            variables,
            reference_variables,
            builtins,
            arrays,
            variable_arrays,
            stack_offset,
            labels,
            output,
        ),
        Statement::Assign(_) => compile_assign_arm(
            statement,
            variables,
            reference_variables,
            builtins,
            arrays,
            variable_arrays,
            stack_offset,
            labels,
            output,
        ),
        _ => compile_field_assign_arm(
            statement,
            variables,
            reference_variables,
            builtins,
            arrays,
            variable_arrays,
            stack_offset,
            labels,
            output,
        ),
    }
}

fn compile_let_arm(
    statement: &Statement,
    variables: &mut NameMap<i32>,
    reference_variables: &mut NameMap<String>,
    builtins: &NameMap<String>,
    arrays: &NameMap<ArrayInfo>,
    variable_arrays: &mut NameMap<String>,
    stack_offset: &mut i32,
    labels: &mut LabelCounters,
    output: &mut String,
) -> (r: Result<(), CompileError>)
    requires
        arrays_wf(arrays@),
        statement is Let,
    ensures
        ({
            let o = stmt_c(
                Env { builtins: builtins@, arrays: arrays@ },
                frame_of(
                    old(variables)@,
                    old(reference_variables)@,
                    *old(stack_offset),
                    xs(old(output)@, old(variable_arrays)@, *old(labels)),
                ),
                *statement,
                None,
            );
            &&& final(variables)@ == o.frame.vars
            &&& final(reference_variables)@ == o.frame.refs
            &&& *final(stack_offset) == o.frame.offset
            &&& final(output)@ == o.frame.x.out
            &&& final(variable_arrays)@ == o.frame.x.varr
            &&& *final(labels) == o.frame.x.labels
            &&& result_view(r) == o.result
        }),
    decreases statement, 0nat,
{
    match statement {
        Statement::Let(let_stmt) => compile_let_statement(
            let_stmt,
            variables,
            reference_variables,
            builtins,
            arrays,
            variable_arrays,
            stack_offset,
            labels,
            output,
        ),
        _ => {
            proof {
                assert(false);
            }
            Ok(())
        },
    }
}

fn compile_let_mut_arm(
    statement: &Statement,
    variables: &mut NameMap<i32>,
    reference_variables: &mut NameMap<String>,
    builtins: &NameMap<String>,
    arrays: &NameMap<ArrayInfo>,
    variable_arrays: &mut NameMap<String>,
    stack_offset: &mut i32,
    labels: &mut LabelCounters,
    output: &mut String,
) -> (r: Result<(), CompileError>)
    requires
        arrays_wf(arrays@),
        statement is LetMut,
    ensures
        ({
            let o = stmt_c(
                Env { builtins: builtins@, arrays: arrays@ },
                frame_of(
                    old(variables)@,
                    old(reference_variables)@,
                    *old(stack_offset),
                    xs(old(output)@, old(variable_arrays)@, *old(labels)),
                ),
                *statement,
                None,
            );
            &&& final(variables)@ == o.frame.vars
            &&& final(reference_variables)@ == o.frame.refs
            &&& *final(stack_offset) == o.frame.offset
            &&& final(output)@ == o.frame.x.out
            &&& final(variable_arrays)@ == o.frame.x.varr
            &&& *final(labels) == o.frame.x.labels
            &&& result_view(r) == o.result
        }),
    decreases statement, 0nat,
{
    match statement {
        Statement::LetMut(let_mut_stmt) => compile_let_mut_statement(
            let_mut_stmt,
            variables,
            reference_variables,
            builtins,
            arrays,
            variable_arrays,
            stack_offset,
            labels,
            output,
        ),
        _ => {
            proof {
                assert(false);
            }
            Ok(())
        },
    }
}

pub open spec fn at_offset(f: Frame, offset: i32) -> Frame {
    Frame { vars: f.vars, refs: f.refs, offset, x: f.x }
}

pub open spec fn outcome_at_offset(o: SOutcome, offset: i32) -> SOutcome {
    SOutcome { frame: at_offset(o.frame, offset), result: o.result }
}

/// An assignment neither reads nor moves the stack offset.
pub proof fn lemma_assign_offset(e: Env, f: Frame, a: StatementAssign)
    ensures
        assign_c(e, f, a) == outcome_at_offset(assign_c(e, at_offset(f, 0), a), f.offset),
{
}

pub proof fn lemma_field_assign_offset(e: Env, f: Frame, fa: StatementFieldAssign)
    ensures
        field_assign_c(e, f, fa) == outcome_at_offset(field_assign_c(e, at_offset(f, 0), fa), f.offset),
{
}

fn compile_assign_arm(
    statement: &Statement,
    variables: &mut NameMap<i32>,
    reference_variables: &mut NameMap<String>,
    builtins: &NameMap<String>,
    arrays: &NameMap<ArrayInfo>,
    variable_arrays: &mut NameMap<String>,
    stack_offset: &mut i32,
    labels: &mut LabelCounters,
    output: &mut String,
) -> (r: Result<(), CompileError>)
    requires
        arrays_wf(arrays@),
        statement is Assign,
    ensures
        ({
            let o = stmt_c(
                Env { builtins: builtins@, arrays: arrays@ },
                frame_of(
                    old(variables)@,
                    old(reference_variables)@,
                    *old(stack_offset),
                    xs(old(output)@, old(variable_arrays)@, *old(labels)),
                ),
                *statement,
                None,
            );
            &&& final(variables)@ == o.frame.vars
            &&& final(reference_variables)@ == o.frame.refs
            &&& *final(stack_offset) == o.frame.offset
            &&& final(output)@ == o.frame.x.out
            &&& final(variable_arrays)@ == o.frame.x.varr
            &&& *final(labels) == o.frame.x.labels
            &&& result_view(r) == o.result
        }),
    decreases statement, 0nat,
{
    match statement {
        Statement::Assign(assign_stmt) => {
            proof {
                lemma_assign_offset(
                    Env { builtins: builtins@, arrays: arrays@ },
                    frame_of(
                        old(variables)@,
                        old(reference_variables)@,
                        *old(stack_offset),
                        xs(old(output)@, old(variable_arrays)@, *old(labels)),
                    ),
                    *assign_stmt,
                );
            }
            compile_assign_statement(
            assign_stmt,
            variables,
            reference_variables,
            builtins,
            arrays,
            variable_arrays,
            labels,
            output,
            )
        },
        _ => {
            proof {
                assert(false);
            }
            Ok(())
        },
    }
}

fn compile_field_assign_arm(
    statement: &Statement,
    variables: &mut NameMap<i32>,
    reference_variables: &mut NameMap<String>,
    builtins: &NameMap<String>,
    arrays: &NameMap<ArrayInfo>,
    variable_arrays: &mut NameMap<String>,
    stack_offset: &mut i32,
    labels: &mut LabelCounters,
    output: &mut String,
) -> (r: Result<(), CompileError>)
    requires
        arrays_wf(arrays@),
        statement is FieldAssign,
    ensures
        ({
            let o = stmt_c(
                Env { builtins: builtins@, arrays: arrays@ },
                frame_of(
                    old(variables)@,
                    old(reference_variables)@,
                    *old(stack_offset),
                    xs(old(output)@, old(variable_arrays)@, *old(labels)),
                ),
                *statement,
                None,
            );
            &&& final(variables)@ == o.frame.vars
            &&& final(reference_variables)@ == o.frame.refs
            &&& *final(stack_offset) == o.frame.offset
            &&& final(output)@ == o.frame.x.out
            &&& final(variable_arrays)@ == o.frame.x.varr
            &&& *final(labels) == o.frame.x.labels
            &&& result_view(r) == o.result
        }),
    decreases statement, 0nat,
{
    match statement {
        Statement::FieldAssign(field_assign_stmt) => {
            proof {
                lemma_field_assign_offset(
                    Env { builtins: builtins@, arrays: arrays@ },
                    frame_of(
                        old(variables)@,
                        old(reference_variables)@,
                        *old(stack_offset),
                        xs(old(output)@, old(variable_arrays)@, *old(labels)),
                    ),
                    *field_assign_stmt,
                );
            }
            compile_field_assign_statement(
            field_assign_stmt,
            variables,
            reference_variables,
            builtins,
            arrays,
            variable_arrays,
            labels,
            output,
            )
        },
        _ => {
            proof {
                assert(false);
            }
            Ok(())
        },
    }
}

/// An expression, `#return`, `#loop` or a statement that the compiler refuses.
fn compile_other_statement(
    statement: &Statement,
    variables: &mut NameMap<i32>,
    reference_variables: &mut NameMap<String>,
    builtins: &NameMap<String>,
    arrays: &NameMap<ArrayInfo>,
    variable_arrays: &mut NameMap<String>,
    stack_offset: &mut i32,
    labels: &mut LabelCounters,
    output: &mut String,
) -> (r: Result<(), CompileError>)
    requires
        arrays_wf(arrays@),
        !(statement is Let || statement is LetMut || statement is Assign || statement is FieldAssign),
    ensures
        ({
            let o = stmt_c(
                Env { builtins: builtins@, arrays: arrays@ },
                frame_of(
                    old(variables)@,
                    old(reference_variables)@,
                    *old(stack_offset),
                    xs(old(output)@, old(variable_arrays)@, *old(labels)),
                ),
                *statement,
                None,
            );
            &&& final(variables)@ == o.frame.vars
            &&& final(reference_variables)@ == o.frame.refs
            &&& *final(stack_offset) == o.frame.offset
            &&& final(output)@ == o.frame.x.out
            &&& final(variable_arrays)@ == o.frame.x.varr
            &&& *final(labels) == o.frame.x.labels
            &&& result_view(r) == o.result
        }),
    decreases statement, 1nat,
{
    proof {
        reveal_strlit("Break statement outside of loop context");
        reveal_strlit("CallPtx");
    }
    match statement {
        Statement::Expr(proc_term) => compile_proc_term(
            proc_term,
            variables,
            reference_variables,
            builtins,
            arrays,
            variable_arrays,
            labels,
            output,
        ),
        Statement::Return(return_stmt) => compile_return_statement(
            return_stmt,
            variables,
            reference_variables,
            builtins,
            arrays,
            variable_arrays,
            labels,
            output,
        ),
        Statement::Loop(loop_stmt) => compile_loop_statement(
            loop_stmt,
            variables,
            reference_variables,
            builtins,
            arrays,
            variable_arrays,
            stack_offset,
            labels,
            output,
        ),
        Statement::Break(_) => Err(
            CompileError::UnsupportedConstruct(String::from_str("Break statement outside of loop context")),
        ),
        Statement::CallPtx(_) => Err(CompileError::UnsupportedConstruct(String::from_str("CallPtx"))),
        _ => {
            proof {
                assert(false);
            }
            Ok(())
        },
    }

}

/// `#let x = value;`: the value goes to the next stack slot, which `x` then names.
pub fn compile_let_statement(
    let_stmt: &StatementLet,
    variables: &mut NameMap<i32>,
    reference_variables: &NameMap<String>,
    builtins: &NameMap<String>,
    arrays: &NameMap<ArrayInfo>,
    variable_arrays: &mut NameMap<String>,
    stack_offset: &mut i32,
    labels: &mut LabelCounters,
    output: &mut String,
) -> (r: Result<(), CompileError>)
    requires
        arrays_wf(arrays@),
    ensures
        ({
            let o = let_c(Env { builtins: builtins@, arrays: arrays@ }, frame_of(old(variables)@, reference_variables@, *old(stack_offset), xs(old(output)@, old(variable_arrays)@, *old(labels))), *let_stmt);
            &&& final(variables)@ == o.frame.vars
            &&& reference_variables@ == o.frame.refs
            &&& *final(stack_offset) == o.frame.offset
            &&& final(output)@ == o.frame.x.out
            &&& final(variable_arrays)@ == o.frame.x.varr
            &&& *final(labels) == o.frame.x.labels
            &&& result_view(r) == o.result
        }),
    decreases let_stmt, 0nat,
{
    proof {
        reveal_strlit("Stack offset overflow");
        reveal_strlit("u64_mod");
        reveal_strlit("f32_add");
        reveal_strlit("f32_sub");
        reveal_strlit("f32_mul");
        reveal_strlit("f32_div");
        reveal_strlit("rax");
    }
    if *stack_offset > i32::MAX - 8 {
        return Err(CompileError::UnsupportedConstruct(String::from_str("Stack offset overflow")));
    }
    *stack_offset = *stack_offset + 8;
    let offset = *stack_offset;
    let var_name = let_stmt.variable_name();
    match &*let_stmt.value {
        ProcTerm::ConstructorCall(constructor_call) => {
            return compile_proc_constructor_call_with_var(
                constructor_call,
                var_name,
                arrays,
                output,
                stack_offset,
                variables,
                variable_arrays,
            );
        },
        ProcTerm::Apply(apply) => match &*apply.f {
            ProcTerm::Variable(var) => match builtins.get(var.variable.as_str()) {
                Some(builtin) => {
                    let b = builtin.as_str();
                    if is_text(b, "f32_add") || is_text(b, "f32_sub") || is_text(b, "f32_mul") || is_text(b, "f32_div") {
                        match compile_f32_arithmetic_for_let(apply, b, variables, arrays, variable_arrays, labels, output, offset) {
                            Ok(()) => {},
                            Err(e) => return Err(e),
                        }
                        variables.insert(var_name.to_owned(), offset);
                        return Ok(());
                    } else if is_text(b, "u64_mod") {
                        match compile_u64_mod_for_let(apply, variables, labels, output, offset) {
                            Ok(()) => {},
                            Err(e) => return Err(e),
                        }
                        variables.insert(var_name.to_owned(), offset);
                        return Ok(());
                    }
                },
                None => {},
            },
            _ => {},
        },
        ProcTerm::Number(num) => {
            let st = slot_text(offset);
            let value = number_literal_text(num);
            emit_mov(output, st.as_str(), value.as_str());
            variables.insert(var_name.to_owned(), offset);
            return Ok(());
        },
        _ => {},
    }
    match compile_proc_term(
        &let_stmt.value,
        variables,
        reference_variables,
        builtins,
        arrays,
        variable_arrays,
        labels,
        output,
    ) {
        Ok(()) => {},
        Err(e) => return Err(e),
    }
    let st = slot_text(offset);
    emit_mov(output, st.as_str(), "rax");
    variables.insert(var_name.to_owned(), offset);
    Ok(())
}

/// `#let mut x @ r = value;`: a slot for the value, a slot for its address, named `x` and
/// `r`.
pub fn compile_let_mut_statement(
    let_mut_stmt: &StatementLetMut,
    variables: &mut NameMap<i32>,
    reference_variables: &mut NameMap<String>,
    builtins: &NameMap<String>,
    arrays: &NameMap<ArrayInfo>,
    variable_arrays: &mut NameMap<String>,
    stack_offset: &mut i32,
    labels: &mut LabelCounters,
    output: &mut String,
) -> (r: Result<(), CompileError>)
    requires
        arrays_wf(arrays@),
    ensures
        ({
            let o = let_mut_c(Env { builtins: builtins@, arrays: arrays@ }, frame_of(old(variables)@, old(reference_variables)@, *old(stack_offset), xs(old(output)@, old(variable_arrays)@, *old(labels))), *let_mut_stmt);
            &&& final(variables)@ == o.frame.vars
            &&& final(reference_variables)@ == o.frame.refs
            &&& *final(stack_offset) == o.frame.offset
            &&& final(output)@ == o.frame.x.out
            &&& final(variable_arrays)@ == o.frame.x.varr
            &&& *final(labels) == o.frame.x.labels
            &&& result_view(r) == o.result
        }),
    decreases let_mut_stmt, 0nat,
{
    proof {
        reveal_strlit("Stack offset overflow");
        reveal_strlit("rax");
        reveal_strlit("lea rax, ");
    }
    if *stack_offset > i32::MAX - 8 {
        return Err(CompileError::UnsupportedConstruct(String::from_str("Stack offset overflow")));
    }
    *stack_offset = *stack_offset + 8;
    let value_offset = *stack_offset;
    match compile_proc_term(
        &let_mut_stmt.value,
        variables,
        reference_variables,
        builtins,
        arrays,
        variable_arrays,
        labels,
        output,
    ) {
        Ok(()) => {},
        Err(e) => return Err(e),
    }
    let value_slot = slot_text(value_offset);
    emit_mov(output, value_slot.as_str(), "rax");
    if *stack_offset > i32::MAX - 8 {
        return Err(CompileError::UnsupportedConstruct(String::from_str("Stack offset overflow")));
    }
    *stack_offset = *stack_offset + 8;
    let ref_offset = *stack_offset;
    let lea = join2("lea rax, ", value_slot.as_str());
    emit(output, lea.as_str());
    let ref_slot = slot_text(ref_offset);
    emit_mov(output, ref_slot.as_str(), "rax");
    variables.insert(let_mut_stmt.variable_name().to_owned(), value_offset);
    variables.insert(let_mut_stmt.reference_variable_name().to_owned(), ref_offset);
    reference_variables.insert(let_mut_stmt.reference_variable_name().to_owned(), let_mut_stmt.variable.clone());
    Ok(())
}

/// `x <- value;`: stores the value through the address in `x`'s slot.
pub fn compile_assign_statement(
    assign_stmt: &StatementAssign,
    variables: &mut NameMap<i32>,
    reference_variables: &NameMap<String>,
    builtins: &NameMap<String>,
    arrays: &NameMap<ArrayInfo>,
    variable_arrays: &mut NameMap<String>,
    labels: &mut LabelCounters,
    output: &mut String,
) -> (r: Result<(), CompileError>)
    requires
        arrays_wf(arrays@),
    ensures
        ({
            let o = assign_c(Env { builtins: builtins@, arrays: arrays@ }, frame_of(old(variables)@, reference_variables@, 0, xs(old(output)@, old(variable_arrays)@, *old(labels))), *assign_stmt);
            &&& final(variables)@ == o.frame.vars
            &&& reference_variables@ == o.frame.refs
            &&& 0 == o.frame.offset
            &&& final(output)@ == o.frame.x.out
            &&& final(variable_arrays)@ == o.frame.x.varr
            &&& *final(labels) == o.frame.x.labels
            &&& result_view(r) == o.result
        }),
    decreases assign_stmt, 0nat,
{
    proof {
        reveal_strlit("rbx");
        reveal_strlit("Cannot assign to non-mutable variable: ");
    }
    match variables.get(assign_stmt.variable.as_str()) {
        Some(reference_offset) => {
            let ref_offset = *reference_offset;
            match compile_proc_term(
                &assign_stmt.value,
                variables,
                reference_variables,
                builtins,
                arrays,
                variable_arrays,
                labels,
                output,
            ) {
                Ok(()) => {},
                Err(e) => return Err(e),
            }
            let st = slot_text(ref_offset);
            emit_mov(output, "rbx", st.as_str());
            emit(output, "mov qword ptr [rbx], rax");
            Ok(())
        },
        None => Err(
            CompileError::UnsupportedConstruct(
                join2("Cannot assign to non-mutable variable: ", assign_stmt.variable.as_str()),
            ),
        ),
    }
}

/// `object.field index <- value;`
pub fn compile_field_assign_statement(
    field_assign_stmt: &StatementFieldAssign,
    variables: &mut NameMap<i32>,
    reference_variables: &NameMap<String>,
    builtins: &NameMap<String>,
    arrays: &NameMap<ArrayInfo>,
    variable_arrays: &mut NameMap<String>,
    labels: &mut LabelCounters,
    output: &mut String,
) -> (r: Result<(), CompileError>)
    requires
        arrays_wf(arrays@),
    ensures
        ({
            let o = field_assign_c(Env { builtins: builtins@, arrays: arrays@ }, frame_of(old(variables)@, reference_variables@, 0, xs(old(output)@, old(variable_arrays)@, *old(labels))), *field_assign_stmt);
            &&& final(variables)@ == o.frame.vars
            &&& reference_variables@ == o.frame.refs
            &&& 0 == o.frame.offset
            &&& final(output)@ == o.frame.x.out
            &&& final(variable_arrays)@ == o.frame.x.varr
            &&& *final(labels) == o.frame.x.labels
            &&& result_view(r) == o.result
        }),
    decreases field_assign_stmt, 0nat,
{
    match compile_proc_field_access(&field_assign_stmt.field_access, variables, arrays, variable_arrays, output) {
        Ok(()) => {},
        Err(e) => return Err(e),
    }
    emit(output, "mov rbx, rax");
    match compile_proc_term(
        &field_assign_stmt.value,
        variables,
        reference_variables,
        builtins,
        arrays,
        variable_arrays,
        labels,
        output,
    ) {
        Ok(()) => {},
        Err(e) => return Err(e),
    }
    emit(output, "mov qword ptr [rbx], rax");
    Ok(())
}

/// `#return value;`: the value ends up in `rax`.
pub fn compile_return_statement(
    return_stmt: &StatementReturn,
    variables: &NameMap<i32>,
    reference_variables: &NameMap<String>,
    builtins: &NameMap<String>,
    arrays: &NameMap<ArrayInfo>,
    variable_arrays: &mut NameMap<String>,
    labels: &mut LabelCounters,
    output: &mut String,
) -> (r: Result<(), CompileError>)
    requires
        arrays_wf(arrays@),
    ensures
        ({
            let o = term_c(
                Env { builtins: builtins@, arrays: arrays@ },
                variables@,
                reference_variables@,
                xs(old(output)@, old(variable_arrays)@, *old(labels)),
                *return_stmt.value,
            );
            &&& final(output)@ == o.state.out
            &&& final(variable_arrays)@ == o.state.varr
            &&& *final(labels) == o.state.labels
            &&& result_view(r) == o.result
        }),
    decreases return_stmt, 0nat,
{
    compile_proc_term(
        &return_stmt.value,
        variables,
        reference_variables,
        builtins,
        arrays,
        variable_arrays,
        labels,
        output,
    )
}

/// `#loop { body }` between a start label and an end label that `#break` jumps to.
pub fn compile_loop_statement(
    loop_stmt: &StatementLoop,
    variables: &mut NameMap<i32>,
    reference_variables: &mut NameMap<String>,
    builtins: &NameMap<String>,
    arrays: &NameMap<ArrayInfo>,
    variable_arrays: &mut NameMap<String>,
    stack_offset: &mut i32,
    labels: &mut LabelCounters,
    output: &mut String,
) -> (r: Result<(), CompileError>)
    requires
        arrays_wf(arrays@),
    ensures
        ({
            let o = loop_c(Env { builtins: builtins@, arrays: arrays@ }, frame_of(old(variables)@, old(reference_variables)@, *old(stack_offset), xs(old(output)@, old(variable_arrays)@, *old(labels))), *loop_stmt);
            &&& final(variables)@ == o.frame.vars
            &&& final(reference_variables)@ == o.frame.refs
            &&& *final(stack_offset) == o.frame.offset
            &&& final(output)@ == o.frame.x.out
            &&& final(variable_arrays)@ == o.frame.x.varr
            &&& *final(labels) == o.frame.x.labels
            &&& result_view(r) == o.result
        }),
    decreases loop_stmt, 0nat,
{
    proof {
        reveal_strlit("loop_start_");
        reveal_strlit("loop_end_");
        reveal_strlit("jmp ");
    }
    let id = labels.loop_labels;
    labels.loop_labels = next_label_exec(id);
    let start = label_text("loop_start_", id);
    let end = label_text("loop_end_", id);
    emit_label(output, start.as_str());
    match compile_statements_in(
        &loop_stmt.body,
        variables,
        reference_variables,
        builtins,
        arrays,
        variable_arrays,
        stack_offset,
        Some(end.as_str()),
        labels,
        output,
    ) {
        Ok(()) => {},
        Err(e) => return Err(e),
    }
    let j = join2("jmp ", start.as_str());
    emit(output, j.as_str());
    emit_label(output, end.as_str());
    Ok(())
}

/// Compiles statements into x86-64 assembly, one construct at a time.
pub struct StatementCompiler;

impl StatementCompiler {
    /// Compiles one statement.
    pub fn compile_statement(
        statement: &Statement,
        variables: &mut NameMap<i32>,
        reference_variables: &mut NameMap<String>,
        builtins: &NameMap<String>,
        arrays: &NameMap<ArrayInfo>,
        variable_arrays: &mut NameMap<String>,
        stack_offset: &mut i32,
        labels: &mut LabelCounters,
        output: &mut String,
    ) -> (r: Result<(), CompileError>)
        requires
            arrays_wf(arrays@),
    ensures
            ({
                let o = stmt_c(Env { builtins: builtins@, arrays: arrays@ }, frame_of(old(variables)@, old(reference_variables)@, *old(stack_offset), xs(old(output)@, old(variable_arrays)@, *old(labels))), *statement, None);
                &&& final(variables)@ == o.frame.vars
                &&& final(reference_variables)@ == o.frame.refs
                &&& *final(stack_offset) == o.frame.offset
                &&& final(output)@ == o.frame.x.out
                &&& final(variable_arrays)@ == o.frame.x.varr
                &&& *final(labels) == o.frame.x.labels
                &&& result_view(r) == o.result
            }),
    {
        compile_statement_in(
            statement,
            variables,
            reference_variables,
            builtins,
            arrays,
            variable_arrays,
            stack_offset,
            None,
            labels,
            output,
        )
    }

    /// Compiles a sequence of statements, stopping at the first error.
    pub fn compile_statements(
        statements: &Statements,
        variables: &mut NameMap<i32>,
        reference_variables: &mut NameMap<String>,
        builtins: &NameMap<String>,
        arrays: &NameMap<ArrayInfo>,
        variable_arrays: &mut NameMap<String>,
        stack_offset: &mut i32,
        labels: &mut LabelCounters,
        output: &mut String,
    ) -> (r: Result<(), CompileError>)
        requires
            arrays_wf(arrays@),
    ensures
            ({
                let o = stmts_c(Env { builtins: builtins@, arrays: arrays@ }, frame_of(old(variables)@, old(reference_variables)@, *old(stack_offset), xs(old(output)@, old(variable_arrays)@, *old(labels))), *statements, None);
                &&& final(variables)@ == o.frame.vars
                &&& final(reference_variables)@ == o.frame.refs
                &&& *final(stack_offset) == o.frame.offset
                &&& final(output)@ == o.frame.x.out
                &&& final(variable_arrays)@ == o.frame.x.varr
                &&& *final(labels) == o.frame.x.labels
                &&& result_view(r) == o.result
            }),
    {
        compile_statements_in(
            statements,
            variables,
            reference_variables,
            builtins,
            arrays,
            variable_arrays,
            stack_offset,
            None,
            labels,
            output,
        )
    }
}

} // verus!
