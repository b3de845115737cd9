use vstd::prelude::*;
use vstd::string::*;

use crate::arrays::{array_fields, compile_array, index_offset, sized};
use crate::codegen::{
    arity_error, arity_message, contains_exec, contains_text, emit, emit_label, is_text, join2, join3, line,
    next_label, next_label_exec, result_view, texts, unsupported, ArrayInfo, CompileError, LabelCounters,
    SArrayInfo, SCompileError,
};
use crate::lowering::{
    arrays_wf, assign_c, constructor_name, element_size, emit_x, err, field_assign_c, let_c, let_mut_c, names_of, s_fail, s_ok, soa_allocation, stmt_c,
    stmts_c, types_of, with_x, Env, Frame, SOutcome, XState,
};
use crate::syscall::{emit_mov, mov, syscall_register, syscall_register_text, u64_literal, unknown_variable, SyscallCompiler};
use crate::names::NameMap;
use crate::ptx::{extract_proc_parameters, proc_params};
use crate::statement::{frame_of, xs, StatementCompiler};
use crate::syntax::{
    item_kind_text, proc_term_kind, proc_term_kind_text, statements_kind, statements_kind_text, ProcTermVariable, File, Item, ItemArray, ItemProc, ItemProcBlock, ProcTerm,
    ProcTermApply, ProcTermConstructorCall, ProcTermDereference, ProcTermFieldAccess, ProcTermIf, Statement,
    StatementBreak, StatementLoop, StatementReturn, Statements,
};
use crate::text::{decimal, int_text, int_to_string, nat_to_string};

verus! {

broadcast use vstd::std_specs::vec::group_vec_axioms;

/// Whether the program is compiled for a host that launches GPU kernels.
#[derive(Debug, Clone, Copy)]
pub struct CompileOptions {
    pub use_ptx: bool,
}

/// The compiler of a whole program to x86-64 assembly.
pub struct AssemblyCompiler {
    pub output: String,
    pub entrypoint: Option<String>,
    pub builtins: NameMap<String>,
    pub variables: NameMap<i32>,
    pub stack_offset: i32,
    pub arrays: NameMap<ArrayInfo>,
    pub variable_arrays: NameMap<String>,
    pub loop_stack: Vec<String>,
    pub compile_options: CompileOptions,
    pub reference_variables: NameMap<String>,
    pub labels: LabelCounters,
}

/// What compiling items changes: the entry point, the builtins, the array types, and the
/// tables of the statement compiler.
pub struct AsmModel {
    pub entry: Option<Seq<char>>,
    pub builtins: Map<Seq<char>, String>,
    pub arrays: Map<Seq<char>, ArrayInfo>,
    pub frame: Frame,
}

pub open spec fn with_frame(m: AsmModel, f: Frame) -> AsmModel {
    AsmModel { entry: m.entry, builtins: m.builtins, arrays: m.arrays, frame: f }
}

pub open spec fn env_of(m: AsmModel) -> Env {
    Env { builtins: m.builtins, arrays: m.arrays }
}

/// The model with text appended to the code.
pub open spec fn append_out(m: AsmModel, s: Seq<char>) -> AsmModel {
    with_frame(m, with_x(m.frame, emit_x(m.frame.x, s)))
}

/// The stack slots that a statement's variables take in a procedure's frame: one for a
/// `#let`, two for a `#let mut` (its value and its reference).
pub open spec fn let_slots(st: Statement) -> nat {
    match st {
        Statement::Let(_) => 1,
        Statement::LetMut(_) => 2,
        _ => 0,
    }
}

pub open spec fn let_slots_all(ss: Statements) -> nat
    decreases ss,
{
    match ss {
        Statements::Then(t) => let_slots(*t.head) + let_slots_all(*t.tail),
        Statements::Statement(b) => let_slots(*b),
        Statements::Nil => 0,
    }
}

/// The bytes of stack a procedure reserves: a slot for each parameter and each variable.
pub open spec fn stack_space(p: ItemProc) -> nat {
    (proc_params(p.ty, Seq::empty()).len() + let_slots_all(p.proc_block.statements)) * 8
}

/// Whether the stack space of a procedure can be counted: its variables in an `i32`, its
/// bytes in a `usize`.
pub open spec fn proc_fits(p: ItemProc) -> bool {
    &&& let_slots_all(p.proc_block.statements) <= i32::MAX
    &&& stack_space(p) <= usize::MAX
}

pub open spec fn item_fits(item: Item) -> bool {
    match item {
        Item::Proc(p) => proc_fits(p),
        _ => true,
    }
}

/// `sub rsp, n` or `add rsp, n`, when `n` is not zero.
pub open spec fn rsp_adjust(op: Seq<char>, n: nat) -> Seq<char> {
    if n > 0 {
        "    "@ + op + " rsp, "@ + decimal(n) + "\n"@
    } else {
        Seq::empty()
    }
}

/// The store of the `i`-th parameter register into its slot.
pub open spec fn param_store(i: int, off: i32) -> Option<Seq<char>> {
    if i == 0 {
        Some("    mov qword ptr [rsp + "@ + int_text(off - 8) + "], rdi\n"@)
    } else if i == 1 {
        Some("    mov qword ptr [rsp + "@ + int_text(off - 8) + "], rsi\n"@)
    } else {
        None
    }
}

/// The parameters `params[i..]`, each given the next stack slot and stored there from its
/// register; only two registers are supported.
pub open spec fn store_params(params: Seq<Seq<char>>, i: int, f: Frame) -> SOutcome
    decreases params.len() - i,
{
    if i < 0 || i >= params.len() {
        s_ok(f)
    } else {
        let off = (f.offset + 8) as i32;
        let f1 = Frame { vars: f.vars.insert(params[i], off), refs: f.refs, offset: off, x: f.x };
        match param_store(i, off) {
            Some(code) => store_params(params, i + 1, with_x(f1, emit_x(f1.x, code))),
            None => s_fail(f1, err("More than 2 parameters not supported"@)),
        }
    }
}

/// A procedure: its label, its frame, its parameters, its body, and its return.
pub open spec fn proc_c(e: Env, f: Frame, p: ItemProc) -> SOutcome {
    let params = proc_params(p.ty, Seq::empty());
    let space = stack_space(p);
    let x0 = emit_x(f.x, p.name@ + ":\n"@ + rsp_adjust("sub"@, space));
    let ps = store_params(params, 0, Frame { vars: f.vars, refs: f.refs, offset: 0, x: x0 });
    match ps.result {
        Err(_) => ps,
        Ok(_) => {
            let b = stmts_c(e, ps.frame, p.proc_block.statements, None);
            match b.result {
                Err(_) => b,
                Ok(_) => s_ok(Frame {
                    vars: Map::empty(),
                    refs: b.frame.refs,
                    offset: b.frame.offset,
                    x: emit_x(b.frame.x, rsp_adjust("add"@, space) + "    ret\n\n"@),
                }),
            }
        },
    }
}

/// What `compile_array` does to the table of array types.
pub open spec fn array_step(
    before: Map<Seq<char>, ArrayInfo>,
    a: ItemArray,
    after: Map<Seq<char>, ArrayInfo>,
    res: Result<(), SCompileError>,
) -> bool {
    match array_fields(a.fields@, 0, Seq::empty(), Seq::empty(), 1) {
        Err(e) => res == Err::<(), SCompileError>(e) && after == before,
        Ok(parts) => {
            &&& res is Ok
            &&& after.dom() == before.dom().insert(a.name@)
            &&& forall|k: Seq<char>| k != a.name@ && before.contains_key(k) ==> #[trigger] after[k] == before[k]
            &&& after[a.name@]@ == (SArrayInfo {
                element_type: "struct"@,
                field_names: parts.0,
                field_types: parts.1,
                dimension: parts.2,
                size: None,
            })
        },
    }
}

/// What compiling an item does.
pub open spec fn item_step(m: AsmModel, item: Item, m2: AsmModel, res: Result<(), SCompileError>) -> bool {
    match item {
        Item::Entrypoint(ep) => m2 == AsmModel {
            entry: Some(ep.name@),
            builtins: m.builtins,
            arrays: m.arrays,
            frame: m.frame,
        } && res is Ok,
        Item::UseBuiltin(u) => m2 == AsmModel {
            entry: m.entry,
            builtins: m.builtins.insert(u.name@, u.builtin_name),
            arrays: m.arrays,
            frame: m.frame,
        } && res is Ok,
        Item::Proc(p) => {
            let o = proc_c(env_of(m), m.frame, p);
            m2 == with_frame(m, o.frame) && res == o.result
        },
        Item::Array(a) => {
            &&& m2.entry == m.entry
            &&& m2.builtins == m.builtins
            &&& m2.frame == m.frame
            &&& array_step(m.arrays, a, m2.arrays, res)
        },
        Item::Definition(_) => m2 == m && res == Err::<(), SCompileError>(err("Definition"@)),
    }
}

/// The text of a program before its items.
pub open spec fn file_header(use_ptx: bool) -> Seq<char> {
    if use_ptx {
        ".intel_syntax noprefix\n"@ + ptx_globals() + ".section .text\n"@ + ".globl main\n\n"@
    } else {
        ".intel_syntax noprefix\n"@ + ".section .text\n"@ + ".globl _start\n\n"@
    }
}

/// The device handles of a program that launches GPU kernels.
pub open spec fn ptx_globals() -> Seq<char> {
    "\n    .text\n    .globl\t__cu_device\n    .bss\n    .align 4\n    .type\t__cu_device, @object\n    .size\t__cu_device, 4\n__cu_device:\n    .zero\t4\n    .globl\t__cu_context\n    .align 8\n    .type\t__cu_context, @object\n    .size\t__cu_context, 8\n__cu_context:\n    .zero\t8\n    .globl\t__cu_module\n    .align 8\n    .type\t__cu_module, @object\n    .size\t__cu_module, 8\n__cu_module:\n    .zero\t8\n    .globl\t__cu_function\n    .align 8\n    .type\t__cu_function, @object\n    .size\t__cu_function, 8\n__cu_function:\n    .zero\t8\n    .globl\t__cu_device_ptr\n    .align 8\n    .type\t__cu_device_ptr, @object\n    .size\t__cu_device_ptr, 8\n__cu_device_ptr:\n    .zero\t8\n"@
}

/// The set-up of the GPU driver in `main`.
pub open spec fn cuda_setup() -> Seq<char> {
    "\n    # cuInit(0)\n    mov     edi, 0\n    call    cuInit@PLT\n    # cuDeviceGet(&cu_device, 0)\n    mov\t    esi, 0\n    lea\t    rdi, __cu_device[rip]\n    call    cuDeviceGet@PLT\n    # cuCtxCreate_v2(&cu_context, 0, cu_device)\n    mov\t    eax, DWORD PTR __cu_device[rip]\n    mov\t    edx, eax\n    mov\t    esi, 0\n    lea\t    rdi, __cu_context[rip]\n    call    cuCtxCreate_v2@PLT\n"@
}

/// The text of a program after its items: the start routine, which calls the entry point
/// and exits.
pub open spec fn file_trailer(use_ptx: bool, entry: Seq<char>) -> Seq<char> {
    if use_ptx {
        "main:\n"@ + "    push rbp\n"@ + cuda_setup() + "    call "@ + entry + "\n"@ + "    mov rax, 60\n"@
            + "    mov rdi, 0\n"@ + "    syscall\n"@ + "    pop rbp\n"@
    } else {
        "_start:\n"@ + "    call "@ + entry + "\n"@ + "    mov rax, 60\n"@ + "    mov rdi, 0\n"@ + "    syscall\n"@
    }
}

/// The items before the last model of `trace` compiled without error, each taking a model
/// of `trace` to the next.
pub open spec fn trace_ok(items: Seq<Item>, trace: Seq<AsmModel>) -> bool {
    &&& 1 <= trace.len() <= items.len() + 1
    &&& forall|j: int| 0 <= j < trace.len() - 1 ==> #[trigger] item_step(trace[j], items[j], trace[j + 1], Ok(()))
}

/// The outcome of compiling the items of a program from the model `m0`, its header
/// written: either an item fails, or all compile and the entry point decides.
pub open spec fn file_outcome(
    m0: AsmModel,
    items: Seq<Item>,
    use_ptx: bool,
    m_final: AsmModel,
    r: Result<Seq<char>, SCompileError>,
) -> bool {
    exists|trace: Seq<AsmModel>|
        #[trigger] trace_ok(items, trace) && trace[0] == append_out(m0, file_header(use_ptx)) && {
            let k = trace.len() - 1;
            let last = trace[k];
            if k < items.len() {
                exists|e: SCompileError| #[trigger] item_step(last, items[k], m_final, Err(e)) && r == Err::<Seq<char>, SCompileError>(e)
            } else {
                match last.entry {
                    None => m_final == last && r == Err::<Seq<char>, SCompileError>(SCompileError::EntrypointNotFound),
                    Some(name) => m_final == append_out(last, file_trailer(use_ptx, name)) && r == Ok::<Seq<char>, SCompileError>(m_final.frame.x.out),
                }
            }
        }
}

proof fn lemma_entry_stays_unset(items: Seq<Item>, trace: Seq<AsmModel>, j: int)
    requires
        trace_ok(items, trace),
        trace[0].entry is None,
        forall|i: int| 0 <= i < items.len() ==> !(#[trigger] items[i] is Entrypoint),
        0 <= j < trace.len(),
    ensures
        trace[j].entry is None,
    decreases j,
{
    if j > 0 {
        lemma_entry_stays_unset(items, trace, j - 1);
        let i = j - 1;
        assert(item_step(trace[i], items[i], trace[i + 1], Ok(())));
        assert(!(items[i] is Entrypoint));
    }
}

/// A program with no entry point item is never compiled: whatever its items are, the
/// outcome is an error.
pub proof fn lemma_no_entrypoint_no_program(
    m0: AsmModel,
    items: Seq<Item>,
    use_ptx: bool,
    m: AsmModel,
    r: Result<Seq<char>, SCompileError>,
)
    requires
        m0.entry is None,
        forall|i: int| 0 <= i < items.len() ==> !(#[trigger] items[i] is Entrypoint),
        file_outcome(m0, items, use_ptx, m, r),
    ensures
        r is Err,
{
    let trace = choose|trace: Seq<AsmModel>|
        #[trigger] trace_ok(items, trace) && trace[0] == append_out(m0, file_header(use_ptx)) && {
            let k = trace.len() - 1;
            let last = trace[k];
            if k < items.len() {
                exists|e: SCompileError| #[trigger] item_step(last, items[k], m, Err(e)) && r == Err::<Seq<char>, SCompileError>(e)
            } else {
                match last.entry {
                    None => m == last && r == Err::<Seq<char>, SCompileError>(SCompileError::EntrypointNotFound),
                    Some(name) => m == append_out(last, file_trailer(use_ptx, name)) && r == Ok::<Seq<char>, SCompileError>(m.frame.x.out),
                }
            }
        };
    lemma_entry_stays_unset(items, trace, trace.len() - 1);
}

proof fn lemma_store_params_appends(params: Seq<Seq<char>>, i: int, f: Frame)
    ensures
        f.x.out.is_prefix_of(store_params(params, i, f).frame.x.out),
    decreases params.len() - i,
{
    crate::emission::lemma_prefix_refl(f.x.out);
    if 0 <= i < params.len() {
        let off = (f.offset + 8) as i32;
        let f1 = Frame { vars: f.vars.insert(params[i], off), refs: f.refs, offset: off, x: f.x };
        match param_store(i, off) {
            Some(code) => {
                let f2 = with_x(f1, emit_x(f1.x, code));
                crate::emission::lemma_prefix_add(f.x.out, code);
                lemma_store_params_appends(params, i + 1, f2);
                crate::emission::lemma_prefix_trans(f.x.out, f2.x.out, store_params(params, i + 1, f2).frame.x.out);
            },
            None => {},
        }
    }
}

/// Compiling a procedure only appends to the code.
pub proof fn lemma_proc_appends(e: Env, f: Frame, p: ItemProc)
    ensures
        f.x.out.is_prefix_of(proc_c(e, f, p).frame.x.out),
{
    let params = proc_params(p.ty, Seq::empty());
    let space = stack_space(p);
    let head = p.name@ + ":\n"@ + rsp_adjust("sub"@, space);
    let x0 = emit_x(f.x, head);
    let f0 = Frame { vars: f.vars, refs: f.refs, offset: 0, x: x0 };
    crate::emission::lemma_prefix_add(f.x.out, head);
    lemma_store_params_appends(params, 0, f0);
    let ps = store_params(params, 0, f0);
    crate::emission::lemma_prefix_trans(f.x.out, x0.out, ps.frame.x.out);
    if ps.result is Ok {
        crate::emission::lemma_stmts_c(e, ps.frame, p.proc_block.statements, None);
        let b = stmts_c(e, ps.frame, p.proc_block.statements, None);
        crate::emission::lemma_prefix_trans(f.x.out, ps.frame.x.out, b.frame.x.out);
        let tail = rsp_adjust("add"@, space) + "    ret\n\n"@;
        crate::emission::lemma_prefix_add(b.frame.x.out, tail);
        crate::emission::lemma_prefix_trans(f.x.out, b.frame.x.out, b.frame.x.out + tail);
    }
}

proof fn lemma_trace_appends(items: Seq<Item>, trace: Seq<AsmModel>, j: int)
    requires
        trace_ok(items, trace),
        0 <= j < trace.len(),
    ensures
        trace[0].frame.x.out.is_prefix_of(trace[j].frame.x.out),
    decreases j,
{
    if j == 0 {
        crate::emission::lemma_prefix_refl(trace[0].frame.x.out);
    } else {
        let i = j - 1;
        lemma_trace_appends(items, trace, i);
        assert(item_step(trace[i], items[i], trace[i + 1], Ok(())));
        match items[i] {
            Item::Proc(p) => {
                lemma_proc_appends(env_of(trace[i]), trace[i].frame, p);
                crate::emission::lemma_prefix_trans(trace[0].frame.x.out, trace[i].frame.x.out, trace[j].frame.x.out);
            },
            _ => {},
        }
    }
}

/// A compiled program is its header, the code of its items, and the trailer that calls its
/// entry point: the text starts with what was written before and the header, and ends with
/// the trailer.
pub proof fn lemma_program_layout(m0: AsmModel, items: Seq<Item>, use_ptx: bool, m: AsmModel, text: Seq<char>)
    requires
        file_outcome(m0, items, use_ptx, m, Ok(text)),
    ensures
        (m0.frame.x.out + file_header(use_ptx)).is_prefix_of(text),
        m.entry is Some,
        file_trailer(use_ptx, m.entry->0).is_suffix_of(text),
{
    let trace = choose|trace: Seq<AsmModel>|
        #[trigger] trace_ok(items, trace) && trace[0] == append_out(m0, file_header(use_ptx)) && {
            let k = trace.len() - 1;
            let last = trace[k];
            if k < items.len() {
                exists|e: SCompileError| #[trigger] item_step(last, items[k], m, Err(e)) && Ok::<Seq<char>, SCompileError>(text) == Err::<Seq<char>, SCompileError>(e)
            } else {
                match last.entry {
                    None => m == last && Ok::<Seq<char>, SCompileError>(text) == Err::<Seq<char>, SCompileError>(SCompileError::EntrypointNotFound),
                    Some(name) => m == append_out(last, file_trailer(use_ptx, name)) && Ok::<Seq<char>, SCompileError>(text) == Ok::<Seq<char>, SCompileError>(m.frame.x.out),
                }
            }
        };
    let k = trace.len() - 1;
    let last = trace[k];
    lemma_trace_appends(items, trace, k);
    let name = last.entry->0;
    crate::emission::lemma_prefix_add(last.frame.x.out, file_trailer(use_ptx, name));
    crate::emission::lemma_prefix_trans(trace[0].frame.x.out, last.frame.x.out, text);
    assert(text.subrange(text.len() - file_trailer(use_ptx, name).len(), text.len() as int) =~= file_trailer(use_ptx, name));
}

/// A statement whose variables all take their slots in the procedure's own frame: no loop,
/// and no array allocated by a `#let`.
pub open spec fn frame_statement(s: Statement) -> bool {
    match s {
        Statement::Loop(_) => false,
        Statement::Let(l) => !(*l.value is ConstructorCall),
        _ => true,
    }
}

pub open spec fn frame_statements(ss: Statements) -> bool
    decreases ss,
{
    match ss {
        Statements::Then(t) => frame_statement(*t.head) && frame_statements(*t.tail),
        Statements::Statement(b) => frame_statement(*b),
        Statements::Nil => true,
    }
}

proof fn lemma_statement_slots(e: Env, f: Frame, s: Statement)
    requires
        frame_statement(s),
    ensures
        stmt_c(e, f, s, None).frame.offset <= f.offset + 8 * let_slots(s),
{
    match s {
        Statement::Let(l) => {
            let r = let_c(e, f, l);
            assert(r.frame.offset == f.offset || r.frame.offset == f.offset + 8);
        },
        Statement::LetMut(l) => {
            let r = let_mut_c(e, f, l);
            assert(r.frame.offset <= f.offset + 16);
        },
        Statement::Assign(a) => {
            assert(assign_c(e, f, a).frame.offset == f.offset);
        },
        Statement::FieldAssign(fa) => {
            assert(field_assign_c(e, f, fa).frame.offset == f.offset);
        },
        _ => {},
    }
}

proof fn lemma_statements_slots(e: Env, f: Frame, ss: Statements)
    requires
        frame_statements(ss),
    ensures
        stmts_c(e, f, ss, None).frame.offset <= f.offset + 8 * let_slots_all(ss),
    decreases ss,
{
    match ss {
        Statements::Then(t) => {
            lemma_statement_slots(e, f, *t.head);
            let head = stmt_c(e, f, *t.head, None);
            if head.result is Ok {
                lemma_statements_slots(e, head.frame, *t.tail);
            }
        },
        Statements::Statement(b) => lemma_statement_slots(e, f, *b),
        Statements::Nil => {},
    }
}

proof fn lemma_params_slots(params: Seq<Seq<char>>, i: int, f: Frame)
    requires
        0 <= i <= 2,
        i <= params.len(),
        0 <= f.offset <= 8 * i,
    ensures
        store_params(params, i, f).frame.offset <= 8 * params.len(),
    decreases params.len() - i,
{
    if i < params.len() {
        let off = (f.offset + 8) as i32;
        let f1 = Frame { vars: f.vars.insert(params[i], off), refs: f.refs, offset: off, x: f.x };
        match param_store(i, off) {
            Some(code) => lemma_params_slots(params, i + 1, with_x(f1, emit_x(f1.x, code))),
            None => {},
        }
    }
}

/// The frame that a procedure reserves holds every slot that its body takes: a procedure
/// whose variables are all its own (no loop, no array allocated by a `#let`) ends, when it
/// compiles, at a stack offset within its `stack_space`, which counts a slot for each
/// parameter and `#let` and two for each `#let mut`.
pub proof fn lemma_frame_covers_slots(e: Env, f: Frame, p: ItemProc)
    requires
        frame_statements(p.proc_block.statements),
        proc_c(e, f, p).result is Ok,
    ensures
        proc_c(e, f, p).frame.offset <= stack_space(p),
{
    let params = proc_params(p.ty, Seq::empty());
    let space = stack_space(p);
    let x0 = emit_x(f.x, p.name@ + ":\n"@ + rsp_adjust("sub"@, space));
    let f0 = Frame { vars: f.vars, refs: f.refs, offset: 0, x: x0 };
    let ps = store_params(params, 0, f0);
    lemma_params_slots(params, 0, f0);
    lemma_statements_slots(e, ps.frame, p.proc_block.statements);
}

/// Lists of fields are built in pairs: as many names as types.
// The expressions that the program compiler compiles itself, with stack slots addressed
// from `rsp`.

/// The stack slot at `offset`, from `rsp`: `qword ptr [rsp + offset - 8]`.
pub open spec fn rsp_slot(offset: i32) -> Seq<char> {
    "qword ptr [rsp + "@ + int_text(offset - 8) + "]"@
}

/// A numeral or a variable loaded into `reg`; an unknown variable loads 0.
pub open spec fn asm_argument(vars: Map<Seq<char>, i32>, arg: ProcTerm, reg: Seq<char>) -> (Seq<char>, Result<(), SCompileError>) {
    match arg {
        ProcTerm::Number(n) => (mov(reg, u64_literal(n.number@)), Ok(())),
        ProcTerm::Variable(v) => if vars.contains_key(v.variable@) {
            (mov(reg, rsp_slot(vars[v.variable@])), Ok(()))
        } else {
            (mov(reg, "0"@), Ok(()))
        },
        _ => (Seq::empty(), Err(err("Unsupported argument type: "@ + proc_term_kind(arg)))),
    }
}

/// The system call operands `args[i..]`, each a numeral or a known variable.
pub open spec fn asm_syscall_operands(args: Seq<ProcTerm>, vars: Map<Seq<char>, i32>, i: int) -> (Seq<char>, Result<(), SCompileError>)
    decreases args.len() - i,
{
    if i < 0 || i >= args.len() {
        (Seq::empty(), Ok(()))
    } else {
        match args[i] {
            ProcTerm::Number(n) => {
                let rest = asm_syscall_operands(args, vars, i + 1);
                (mov(syscall_register(i), u64_literal(n.number@)) + rest.0, rest.1)
            },
            ProcTerm::Variable(v) => if vars.contains_key(v.variable@) {
                let rest = asm_syscall_operands(args, vars, i + 1);
                (mov(syscall_register(i), rsp_slot(vars[v.variable@])) + rest.0, rest.1)
            } else {
                (Seq::empty(), Err(err(unknown_variable(v.variable@))))
            },
            _ => (Seq::empty(), Err(SCompileError::InvalidSyscall)),
        }
    }
}

/// A system call: six operands, then `syscall`.
pub open spec fn asm_syscall_code(args: Seq<ProcTerm>, vars: Map<Seq<char>, i32>) -> (Seq<char>, Result<(), SCompileError>) {
    if args.len() != 6 {
        (Seq::empty(), Err(SCompileError::InvalidSyscall))
    } else {
        let ops = asm_syscall_operands(args, vars, 0);
        match ops.1 {
            Ok(_) => (ops.0 + line("syscall"@), Ok(())),
            Err(e) => (ops.0, Err(e)),
        }
    }
}

/// The address arithmetic of an element index.
pub open spec fn asm_index_code(vars: Map<Seq<char>, i32>, index: ProcTerm, es: nat) -> (Seq<char>, Result<(), SCompileError>) {
    match index {
        ProcTerm::Number(n) => if index_offset(n, es) > 0 {
            (line("add rax, "@ + decimal(index_offset(n, es))), Ok(()))
        } else {
            (Seq::empty(), Ok(()))
        },
        ProcTerm::Variable(v) => if vars.contains_key(v.variable@) {
            (
                mov("rbx"@, rsp_slot(vars[v.variable@])) + mov("rcx"@, decimal(es)) + line("imul rbx, rcx"@) + line(
                    "add rax, rbx"@,
                ),
                Ok(()),
            )
        } else {
            (Seq::empty(), Ok(()))
        },
        _ => (Seq::empty(), Err(err("Unsupported index type in field access: "@ + proc_term_kind(index)))),
    }
}

/// The address of `object.field index` into `rax`: the field array's pointer, then the
/// index times the element size.
pub open spec fn asm_field_access(
    arrays: Map<Seq<char>, ArrayInfo>,
    vars: Map<Seq<char>, i32>,
    varr: Map<Seq<char>, String>,
    fa: ProcTermFieldAccess,
) -> (Seq<char>, Result<(), SCompileError>) {
    let obj = fa.object@;
    let ptr = obj + "_"@ + fa.field@ + "_ptr"@;
    if vars.contains_key(ptr) {
        let head = mov("rax"@, rsp_slot(vars[ptr]));
        match fa.index {
            None => (head, Ok(())),
            Some(index) => if varr.contains_key(obj) && arrays.contains_key(varr[obj]@) {
                let info = arrays[varr[obj]@];
                match element_size(names_of(info), types_of(info), fa.field@) {
                    Err(er) => (head, Err(er)),
                    Ok(es) => {
                        let ix = asm_index_code(vars, *index, es);
                        (head + ix.0, ix.1)
                    },
                }
            } else {
                (head, Ok(()))
            },
        }
    } else {
        (Seq::empty(), Err(err(unknown_variable(obj))))
    }
}

/// The size operand of an array constructor: a numeral, or a variable loaded into `rsi`.
pub open spec fn asm_size_operand(c: ProcTermConstructorCall, vars: Map<Seq<char>, i32>) -> (Seq<char>, Result<Seq<char>, SCompileError>) {
    if c.args@.len() == 0 {
        (Seq::empty(), Err(err("Missing size argument for array constructor"@)))
    } else {
        match c.args@[0] {
            ProcTerm::Number(n) => (Seq::empty(), Ok(n.number@)),
            ProcTerm::Variable(v) => if vars.contains_key(v.variable@) {
                (mov("rsi"@, rsp_slot(vars[v.variable@])), Ok("rsi"@))
            } else {
                (Seq::empty(), Err(err("Unknown variable in array size: "@ + v.variable@)))
            },
            _ => (Seq::empty(), Err(err("Unsupported size argument type: "@ + proc_term_kind(c.args@[0])))),
        }
    }
}

/// What an array constructor does: its allocation, and, for the type-named form, the size
/// recorded in the table of array types.
pub open spec fn asm_constructor_step(
    m: AsmModel,
    c: ProcTermConstructorCall,
    var: Option<Seq<char>>,
    m2: AsmModel,
    res: Result<(), SCompileError>,
) -> bool {
    let f = m.frame;
    if !contains_text(constructor_name(c), "::new_with_size"@) {
        m2 == m && res == Err::<(), SCompileError>(err("Constructor call not yet implemented: "@ + constructor_name(c)))
    } else if !m.arrays.contains_key(c.array_type@) {
        m2 == m && res == Err::<(), SCompileError>(err("Array type not found: "@ + c.array_type@))
    } else {
        let size = asm_size_operand(c, f.vars);
        match size.1 {
            Err(e) => m2 == append_out(m, size.0) && res == Err::<(), SCompileError>(e),
            Ok(operand) => {
                let info = m.arrays[c.array_type@];
                let name = match var {
                    Some(v) => v,
                    None => c.array_type@,
                };
                let a = soa_allocation(name, info, operand, var is Some, f.x.out + size.0, f.offset, f.vars);
                &&& m2.entry == m.entry
                &&& m2.builtins == m.builtins
                &&& m2.frame == Frame {
                    vars: a.vars,
                    refs: f.refs,
                    offset: a.offset,
                    x: XState { out: a.out, varr: f.x.varr, labels: f.x.labels },
                }
                &&& res == a.result
                &&& if var is Some || a.result is Err {
                    m2.arrays == m.arrays
                } else {
                    &&& m2.arrays.dom() == m.arrays.dom().insert(name)
                    &&& forall|k: Seq<char>| k != name && m.arrays.contains_key(k) ==> #[trigger] m2.arrays[k] == m.arrays[k]
                    &&& m2.arrays[name]@ == sized(info@, operand)
                }
            },
        }
    }
}

/// The two labels of a conditional the program compiler compiles: its counter is advanced
/// first, and the new number names the labels.
pub open spec fn asm_if_labels(labels: LabelCounters) -> (Seq<char>, Seq<char>, LabelCounters) {
    let id = next_label(labels.if_labels);
    (
        "if_else_"@ + decimal(id as nat),
        "if_end_"@ + decimal(id as nat),
        LabelCounters { if_labels: id, loop_labels: labels.loop_labels, break_if_labels: labels.break_if_labels },
    )
}

/// The comparison of a conditional: `u64_eq` on two operands.
pub open spec fn asm_condition(m: AsmModel, cond: Statements, target: Seq<char>) -> (Seq<char>, Result<(), SCompileError>) {
    match cond {
        Statements::Statement(st) => match *st {
            Statement::Expr(ProcTerm::Apply(a)) => if *a.f matches ProcTerm::Variable(v) && m.builtins.contains_key(v.variable@)
                && m.builtins[v.variable@]@ == "u64_eq"@ {
                if a.args@.len() != 2 {
                    (Seq::empty(), Err(err(arity_message("u64_eq"@, "2 arguments"@, a.args@.len()))))
                } else {
                    let l1 = asm_argument(m.frame.vars, a.args@[0], "rax"@);
                    match l1.1 {
                        Err(e) => (l1.0, Err(e)),
                        Ok(_) => {
                            let l2 = asm_argument(m.frame.vars, a.args@[1], "rbx"@);
                            match l2.1 {
                                Err(e) => (l1.0 + l2.0, Err(e)),
                                Ok(_) => (l1.0 + l2.0 + line("cmp rax, rbx"@) + line("jne "@ + target), Ok(())),
                            }
                        },
                    }
                }
            } else {
                (Seq::empty(), Err(err("Unsupported condition in if: "@ + statements_kind(cond))))
            },
            _ => (Seq::empty(), Err(err("Unsupported condition type in if: "@ + statements_kind(cond)))),
        },
        _ => (Seq::empty(), Err(err("Unsupported condition type in if: "@ + statements_kind(cond)))),
    }
}

pub open spec fn with_labels(m: AsmModel, labels: LabelCounters) -> AsmModel {
    with_frame(m, with_x(m.frame, XState { out: m.frame.x.out, varr: m.frame.x.varr, labels: labels }))
}

/// A statement sequence of the program compiler, as the statement compiler compiles it.
pub open spec fn asm_stmts(m: AsmModel, ss: Statements) -> (AsmModel, Result<(), SCompileError>) {
    let o = stmts_c(env_of(m), m.frame, ss, None);
    (with_frame(m, o.frame), o.result)
}

/// A conditional of the program compiler.
pub open spec fn asm_if(m: AsmModel, i: ProcTermIf) -> (AsmModel, Result<(), SCompileError>) {
    let labels = asm_if_labels(m.frame.x.labels);
    let else_label = labels.0;
    let end_label = labels.1;
    let m0 = with_labels(m, labels.2);
    let target = if i.else_clause is Some {
        else_label
    } else {
        end_label
    };
    let c = asm_condition(m0, *i.condition, target);
    match c.1 {
        Err(e) => (append_out(m0, c.0), Err(e)),
        Ok(_) => {
            let t = asm_stmts(append_out(m0, c.0), *i.then_body);
            match t.1 {
                Err(e) => t,
                Ok(_) => match i.else_clause {
                    None => (append_out(t.0, end_label + ":\n"@), Ok(())),
                    Some(el) => {
                        let e2 = asm_stmts(append_out(t.0, line("jmp "@ + end_label) + else_label + ":\n"@), *el.else_body);
                        match e2.1 {
                            Err(_) => e2,
                            Ok(_) => (append_out(e2.0, end_label + ":\n"@), Ok(())),
                        }
                    },
                },
            }
        },
    }
}

/// A call the program compiler compiles: only the `syscall` builtin is supported.
pub open spec fn asm_apply(m: AsmModel, a: ProcTermApply) -> (Seq<char>, Result<(), SCompileError>) {
    if *a.f matches ProcTerm::Variable(v) && m.builtins.contains_key(v.variable@) && m.builtins[v.variable@]@ == "syscall"@ {
        asm_syscall_code(a.args@, m.frame.vars)
    } else {
        (Seq::empty(), Err(err("Apply"@)))
    }
}

/// Whether compiling a term calls a procedure of the program, which the program compiler
/// does not support yet.
pub open spec fn asm_calls_procedure(builtins: Map<Seq<char>, String>, t: ProcTerm) -> bool
    decreases t,
{
    match t {
        ProcTerm::Apply(a) => *a.f matches ProcTerm::Variable(v) && !builtins.contains_key(v.variable@),
        ProcTerm::Dereference(d) => asm_calls_procedure(builtins, *d.term),
        _ => false,
    }
}

/// What follows the term of a dereference: the load through `rax`, when the term compiled.
pub open spec fn deref_after(m1: AsmModel, r1: Result<(), SCompileError>, m2: AsmModel, res: Result<(), SCompileError>) -> bool {
    match r1 {
        Err(_) => m2 == m1 && res == r1,
        Ok(_) => m2 == append_out(m1, line("mov eax, dword ptr [rax]"@)) && res is Ok,
    }
}

/// The term under all the dereferences at the top of `t`.
pub open spec fn deref_base(t: ProcTerm) -> ProcTerm
    decreases t,
{
    match t {
        ProcTerm::Dereference(d) => deref_base(*d.term),
        _ => t,
    }
}

/// How many dereferences stand at the top of `t`.
pub open spec fn deref_depth(t: ProcTerm) -> nat
    decreases t,
{
    match t {
        ProcTerm::Dereference(d) => deref_depth(*d.term) + 1,
        _ => 0,
    }
}

/// `n` loads of a 4-byte value through `rax`.
pub open spec fn deref_loads(n: nat) -> Seq<char>
    decreases n,
{
    if n == 0 {
        Seq::empty()
    } else {
        deref_loads((n - 1) as nat) + line("mov eax, dword ptr [rax]"@)
    }
}

/// What compiling a procedure term other than a dereference does.
pub open spec fn asm_base_step(m: AsmModel, t: ProcTerm, m2: AsmModel, res: Result<(), SCompileError>) -> bool {
    match t {
        ProcTerm::Apply(a) => {
            let c = asm_apply(m, a);
            m2 == append_out(m, c.0) && res == c.1
        },
        ProcTerm::Variable(v) => if m.frame.vars.contains_key(v.variable@) {
            m2 == append_out(m, mov("rax"@, rsp_slot(m.frame.vars[v.variable@]))) && res is Ok
        } else {
            m2 == m && res == Err::<(), SCompileError>(err(unknown_variable(v.variable@)))
        },
        ProcTerm::FieldAccess(fa) => {
            let c = asm_field_access(m.arrays, m.frame.vars, m.frame.x.varr, fa);
            m2 == append_out(m, c.0) && res == c.1
        },
        ProcTerm::ConstructorCall(c) => asm_constructor_step(m, c, None, m2, res),
        ProcTerm::Dereference(_) => false,
        ProcTerm::If(i) => (m2, res) == asm_if(m, i),
        _ => m2 == m && res == Err::<(), SCompileError>(err(proc_term_kind(t))),
    }
}

/// What compiling a procedure term with the program compiler does: the term under its
/// dereferences, then, when that compiled, one load for each dereference.
pub open spec fn asm_term_step(m: AsmModel, t: ProcTerm, m2: AsmModel, res: Result<(), SCompileError>) -> bool {
    exists|m1: AsmModel, r1: Result<(), SCompileError>|
        #[trigger] asm_base_step(m, deref_base(t), m1, r1) && match r1 {
            Err(_) => m2 == m1 && res == r1,
            Ok(_) => m2 == (if deref_depth(t) == 0 {
                m1
            } else {
                append_out(m1, deref_loads(deref_depth(t)))
            }) && res is Ok,
        }
}

/// Appending twice appends the two texts.
pub proof fn lemma_append_out_twice(m: AsmModel, a: Seq<char>, b: Seq<char>)
    ensures
        append_out(append_out(m, a), b) == append_out(m, a + b),
{
    assert(m.frame.x.out + a + b =~= m.frame.x.out + (a + b));
}

/// The step of a term other than a dereference.
pub proof fn lemma_base_step(m: AsmModel, t: ProcTerm, m2: AsmModel, res: Result<(), SCompileError>)
    requires
        !(t is Dereference),
        asm_base_step(m, t, m2, res),
    ensures
        asm_term_step(m, t, m2, res),
{
    assert(deref_base(t) == t);
    assert(deref_depth(t) == 0);
    assert(asm_base_step(m, deref_base(t), m2, res));
}

/// The step of a dereference, from the step of its term.
pub proof fn lemma_deref_step(
    m: AsmModel,
    d: ProcTermDereference,
    m1: AsmModel,
    r1: Result<(), SCompileError>,
    m2: AsmModel,
    res: Result<(), SCompileError>,
)
    requires
        asm_term_step(m, *d.term, m1, r1),
        deref_after(m1, r1, m2, res),
    ensures
        asm_term_step(m, ProcTerm::Dereference(d), m2, res),
{
    let t = ProcTerm::Dereference(d);
    let (mb, rb) = choose|mb: AsmModel, rb: Result<(), SCompileError>|
        #[trigger] asm_base_step(m, deref_base(*d.term), mb, rb) && match rb {
            Err(_) => m1 == mb && r1 == rb,
            Ok(_) => m1 == (if deref_depth(*d.term) == 0 {
                mb
            } else {
                append_out(mb, deref_loads(deref_depth(*d.term)))
            }) && r1 is Ok,
        };
    assert(deref_base(t) == deref_base(*d.term));
    assert(deref_depth(t) == deref_depth(*d.term) + 1);
    let k = deref_depth(*d.term);
    assert(deref_loads(k + 1) == deref_loads(k) + line("mov eax, dword ptr [rax]"@));
    if rb is Ok {
        if k == 0 {
            assert(deref_loads(0) == Seq::<char>::empty());
            assert(Seq::<char>::empty() + line("mov eax, dword ptr [rax]"@) =~= line("mov eax, dword ptr [rax]"@));
        } else {
            lemma_append_out_twice(mb, deref_loads(k), line("mov eax, dword ptr [rax]"@));
        }
    }
    assert(asm_base_step(m, deref_base(t), mb, rb));
}

pub proof fn lemma_struct_fields_pairs(sf: Seq<crate::syntax::TermStructField>, j: int, names: Seq<Seq<char>>, types: Seq<Seq<char>>)
    requires
        names.len() == types.len(),
    ensures
        crate::arrays::struct_fields(sf, j, names, types) matches Ok(p) ==> p.0.len() == p.1.len(),
    decreases sf.len() - j,
{
    if 0 <= j < sf.len() {
        match *sf[j].ty {
            crate::syntax::Term::Variable(v) => lemma_struct_fields_pairs(sf, j + 1, names.push(sf[j].name@), types.push(v.variable@)),
            _ => {},
        }
    }
}

pub proof fn lemma_array_fields_pairs(
    fs: Seq<crate::syntax::ItemArrayField>,
    i: int,
    names: Seq<Seq<char>>,
    types: Seq<Seq<char>>,
    dimension: usize,
)
    requires
        names.len() == types.len(),
    ensures
        array_fields(fs, i, names, types, dimension) matches Ok(p) ==> p.0.len() == p.1.len(),
    decreases fs.len() - i,
{
    if 0 <= i < fs.len() {
        if fs[i].keyword@ == "item"@ {
            match *fs[i].value {
                crate::syntax::Term::Struct(st) => {
                    lemma_struct_fields_pairs(st.fields@, 0, names, types);
                    match crate::arrays::struct_fields(st.fields@, 0, names, types) {
                        Err(_) => {},
                        Ok((n2, t2)) => lemma_array_fields_pairs(fs, i + 1, n2, t2, dimension),
                    }
                },
                _ => lemma_array_fields_pairs(fs, i + 1, names, types, dimension),
            }
        } else if fs[i].keyword@ == "dimension"@ {
            match *fs[i].value {
                crate::syntax::Term::Number(num) => lemma_array_fields_pairs(
                    fs,
                    i + 1,
                    names,
                    types,
                    match crate::compile_text::parse_usize(num.number@) {
                        Some(d) => d,
                        None => 1,
                    },
                ),
                _ => lemma_array_fields_pairs(fs, i + 1, names, types, dimension),
            }
        } else {
            lemma_array_fields_pairs(fs, i + 1, names, types, dimension);
        }
    }
}

pub open spec fn entry_view(e: Option<String>) -> Option<Seq<char>> {
    match e {
        Some(s) => Some(s@),
        None => None,
    }
}

impl AssemblyCompiler {
    pub open spec fn env(&self) -> Env {
        Env { builtins: self.builtins@, arrays: self.arrays@ }
    }

    pub open spec fn frame(&self) -> Frame {
        frame_of(
            self.variables@,
            self.reference_variables@,
            self.stack_offset,
            xs(self.output@, self.variable_arrays@, self.labels),
        )
    }

    pub open spec fn model(&self) -> AsmModel {
        AsmModel {
            entry: entry_view(self.entrypoint),
            builtins: self.builtins@,
            arrays: self.arrays@,
            frame: self.frame(),
        }
    }

    /// Every array type lists as many field types as field names.
    pub open spec fn wf(&self) -> bool {
        arrays_wf(self.arrays@)
    }

    /// The entry point, the builtins, the array types, the loops and the options stay.
    pub open spec fn keeps_globals(&self, before: &AssemblyCompiler) -> bool {
        &&& self.entrypoint == before.entrypoint
        &&& self.builtins == before.builtins
        &&& self.arrays == before.arrays
        &&& self.loop_stack@ == before.loop_stack@
        &&& self.compile_options == before.compile_options
    }

    pub fn new(compile_options: CompileOptions) -> (c: AssemblyCompiler)
        ensures
            c.model() == (AsmModel {
                entry: None,
                builtins: Map::empty(),
                arrays: Map::empty(),
                frame: frame_of(
                    Map::empty(),
                    Map::empty(),
                    0,
                    xs(Seq::empty(), Map::empty(), LabelCounters { if_labels: 0, loop_labels: 0, break_if_labels: 0 }),
                ),
            }),
            c.compile_options == compile_options,
            c.loop_stack@ == Seq::<String>::empty(),
            c.wf(),
    {
        AssemblyCompiler {
            output: String::new(),
            entrypoint: None,
            builtins: NameMap::new(),
            variables: NameMap::new(),
            stack_offset: 0,
            arrays: NameMap::new(),
            variable_arrays: NameMap::new(),
            loop_stack: Vec::new(),
            compile_options,
            reference_variables: NameMap::new(),
            labels: LabelCounters::new(),
        }
    }

    /// One statement of a procedure body, by the statement compiler.
    pub fn compile_statement(&mut self, statement: &Statement) -> (r: Result<(), CompileError>)
        requires
            old(self).wf(),
        ensures
            final(self).frame() == stmt_c(old(self).env(), old(self).frame(), *statement, None).frame,
            result_view(r) == stmt_c(old(self).env(), old(self).frame(), *statement, None).result,
            final(self).keeps_globals(old(self)),
    {
        StatementCompiler::compile_statement(
            statement,
            &mut self.variables,
            &mut self.reference_variables,
            &self.builtins,
            &self.arrays,
            &mut self.variable_arrays,
            &mut self.stack_offset,
            &mut self.labels,
            &mut self.output,
        )
    }

    /// The statements of a procedure body, in order, up to the first that fails.
    pub fn compile_statements(&mut self, statements: &Statements) -> (r: Result<(), CompileError>)
        requires
            old(self).wf(),
        ensures
            final(self).frame() == stmts_c(old(self).env(), old(self).frame(), *statements, None).frame,
            result_view(r) == stmts_c(old(self).env(), old(self).frame(), *statements, None).result,
            final(self).keeps_globals(old(self)),
        decreases statements,
    {
        match statements {
            Statements::Then(then) => match self.compile_statement(&then.head) {
                Err(e) => Err(e),
                Ok(()) => {
                    assert(self.env() == old(self).env());
                    match &*then.tail {
                        Statements::Nil => {
                            assert(stmts_c(self.env(), self.frame(), *then.tail, None) == s_ok(self.frame()));
                            Ok(())
                        },
                        _ => self.compile_statements(&then.tail),
                    }
                },
            },
            Statements::Statement(statement) => self.compile_statement(statement),
            Statements::Nil => Ok(()),
        }
    }

    /// A procedure body.
    pub fn compile_proc_block(&mut self, block: &ItemProcBlock) -> (r: Result<(), CompileError>)
        requires
            old(self).wf(),
        ensures
            final(self).frame() == stmts_c(old(self).env(), old(self).frame(), block.statements, None).frame,
            result_view(r) == stmts_c(old(self).env(), old(self).frame(), block.statements, None).result,
            final(self).keeps_globals(old(self)),
    {
        self.compile_statements(&block.statements)
    }

    /// The stack slots the variables of a procedure body take.
    pub fn count_let_variables_in_proc_block(&self, block: &ItemProcBlock) -> (r: i32)
        requires
            let_slots_all(block.statements) <= i32::MAX,
        ensures
            r == let_slots_all(block.statements),
    {
        Self::count_let_variables_in_statements(&block.statements)
    }

    pub fn count_let_variables_in_statements(statements: &Statements) -> (r: i32)
        requires
            let_slots_all(*statements) <= i32::MAX,
        ensures
            r == let_slots_all(*statements),
        decreases statements,
    {
        match statements {
            Statements::Then(then) => Self::count_let_variables_in_statement(&then.head)
                + Self::count_let_variables_in_statements(&then.tail),
            Statements::Statement(statement) => Self::count_let_variables_in_statement(statement),
            Statements::Nil => 0,
        }
    }

    pub fn count_let_variables_in_statement(statement: &Statement) -> (r: i32)
        ensures
            r == let_slots(*statement),
    {
        match statement {
            Statement::Let(_) => 1,
            Statement::LetMut(_) => 2,
            Statement::Expr(proc_term) => Self::count_let_variables_in_proc_term(proc_term),
            _ => 0,
        }
    }

    /// Expressions declare no variables.
    pub fn count_let_variables_in_proc_term(_proc_term: &ProcTerm) -> (r: i32)
        ensures
            r == 0,
    {
        0
    }

    /// Appends `    op rsp, n` when `n` is not zero.
    fn adjust_rsp(&mut self, op: &str, n: usize)
        ensures
            final(self).frame() == with_x(old(self).frame(), emit_x(old(self).frame().x, rsp_adjust(op@, n as nat))),
            final(self).keeps_globals(old(self)),
            final(self).variables == old(self).variables,
    {
        if n > 0 {
            let digits = nat_to_string(n as u128);
            self.output.append("    ");
            self.output.append(op);
            self.output.append(" rsp, ");
            self.output.append(digits.as_str());
            self.output.append("\n");
            assert(self.output@ =~= old(self).output@ + rsp_adjust(op@, n as nat));
        } else {
            assert(self.output@ =~= old(self).output@ + rsp_adjust(op@, n as nat));
        }
    }

    /// A procedure: its label and frame, its parameters stored from their registers, its
    /// body, and its return; its variables are forgotten afterwards.
    #[verifier::spinoff_prover]
    #[verifier::rlimit(60)]
    pub fn compile_proc(&mut self, proc: &ItemProc) -> (r: Result<(), CompileError>)
        requires
            old(self).wf(),
            proc_fits(*proc),
        ensures
            final(self).frame() == proc_c(old(self).env(), old(self).frame(), *proc).frame,
            result_view(r) == proc_c(old(self).env(), old(self).frame(), *proc).result,
            final(self).keeps_globals(old(self)),
    {
        let param_names = extract_proc_parameters(&proc.ty);
        let ghost params = proc_params(proc.ty, Seq::empty());
        assert(param_names@.len() == params.len()) by {
            assert(texts(param_names@).len() == param_names@.len());
        }
        let param_count = param_names.len();
        let let_count = self.count_let_variables_in_proc_block(&proc.proc_block);
        let total_stack_space = (param_count + let_count as usize) * 8;
        self.output.append(proc.name.as_str());
        self.output.append(":\n");
        self.adjust_rsp("sub", total_stack_space);
        self.stack_offset = 0;
        let ghost f_start = self.frame();
        proof {
            assert(self.output@ =~= old(self).output@ + (proc.name@ + ":\n"@ + rsp_adjust("sub"@, stack_space(*proc))));
            assert(f_start == (Frame {
                vars: old(self).frame().vars,
                refs: old(self).frame().refs,
                offset: 0,
                x: emit_x(old(self).frame().x, proc.name@ + ":\n"@ + rsp_adjust("sub"@, stack_space(*proc))),
            }));
        }
        let ghost target = store_params(params, 0, f_start);
        let mut i: usize = 0;
        while i < param_names.len()
            invariant
                i <= param_names@.len(),
                i <= 2,
                param_names@.len() == params.len(),
                texts(param_names@) == params,
                self.stack_offset == 8 * i,
                store_params(params, i as int, self.frame()) == target,
                total_stack_space == stack_space(*proc),
                params == proc_params(proc.ty, Seq::empty()),
                target == store_params(params, 0, Frame {
                    vars: old(self).frame().vars,
                    refs: old(self).frame().refs,
                    offset: 0,
                    x: emit_x(old(self).frame().x, proc.name@ + ":\n"@ + rsp_adjust("sub"@, stack_space(*proc))),
                }),
                self.keeps_globals(old(self)),
                self.wf(),
            decreases param_names@.len() - i,
        {
            let ghost fb = self.frame();
            self.stack_offset = self.stack_offset + 8;
            let offset = self.stack_offset;
            assert(param_names@[i as int]@ == params[i as int]) by {
                assert(texts(param_names@)[i as int] == param_names@[i as int]@);
            }
            self.variables.insert(param_names[i].clone(), offset);
            let ghost f1 = Frame { vars: fb.vars.insert(params[i as int], offset), refs: fb.refs, offset: offset, x: fb.x };
            assert(self.frame() == f1);
            if i == 0 || i == 1 {
                let digits = int_to_string(offset as i128 - 8);
                self.output.append("    mov qword ptr [rsp + ");
                self.output.append(digits.as_str());
                if i == 0 {
                    self.output.append("], rdi\n");
                } else {
                    self.output.append("], rsi\n");
                }
                proof {
                    let code = param_store(i as int, offset)->0;
                    assert(self.output@ =~= fb.x.out + code);
                    assert(self.frame() == with_x(f1, emit_x(f1.x, code)));
                }
            } else {
                proof {
                    assert(store_params(params, i as int, fb) == s_fail(f1, err("More than 2 parameters not supported"@)));
                    assert(total_stack_space == stack_space(*proc));
                }
                return Err(CompileError::UnsupportedConstruct(String::from_str("More than 2 parameters not supported")));
            }
            i = i + 1;
        }
        proof {
            assert(store_params(params, i as int, self.frame()) == s_ok(self.frame()));
            assert(total_stack_space == stack_space(*proc));
        }
        match self.compile_proc_block(&proc.proc_block) {
            Err(e) => {
                return Err(e);
            },
            Ok(()) => {},
        }
        let ghost b_out = self.output@;
        self.adjust_rsp("add", total_stack_space);
        self.output.append("    ret\n\n");
        self.variables.clear();
        proof {
            assert(self.output@ =~= b_out + (rsp_adjust("add"@, stack_space(*proc)) + "    ret\n\n"@));
        }
        Ok(())
    }

    /// An item of a program.
    #[verifier::spinoff_prover]
    #[verifier::rlimit(60)]
    pub fn compile_item(&mut self, item: &Item) -> (r: Result<(), CompileError>)
        requires
            old(self).wf(),
            item_fits(*item),
        ensures
            item_step(old(self).model(), *item, final(self).model(), result_view(r)),
            final(self).loop_stack@ == old(self).loop_stack@,
            final(self).compile_options == old(self).compile_options,
            final(self).wf(),
    {
        match item {
            Item::Entrypoint(entrypoint) => {
                self.entrypoint = Some(entrypoint.name.clone());
                Ok(())
            },
            Item::UseBuiltin(use_builtin) => {
                self.builtins.insert(use_builtin.name.clone(), use_builtin.builtin_name.clone());
                Ok(())
            },
            Item::Proc(proc) => self.compile_proc(proc),
            Item::Array(array) => {
                let r = compile_array(array, &mut self.arrays);
                proof {
                    lemma_array_fields_pairs(array.fields@, 0, Seq::empty(), Seq::empty(), 1);
                    assert forall|k: Seq<char>| #[trigger] self.arrays@.contains_key(k) implies self.arrays@[k].field_names@.len()
                        <= self.arrays@[k].field_types@.len() by {
                        if k == array.name@ && r is Ok {
                            assert(texts(self.arrays@[k].field_names@).len() == self.arrays@[k].field_names@.len());
                            assert(texts(self.arrays@[k].field_types@).len() == self.arrays@[k].field_types@.len());
                        } else {
                            assert(old(self).arrays@.contains_key(k));
                        }
                    }
                }
                r
            },
            _ => Err(CompileError::UnsupportedConstruct(String::from_str(item_kind_text(item)))),
        }
    }
}


/// The `rsp`-relative stack slot at `offset`.
pub fn rsp_slot_text(offset: i32) -> (r: String)
    ensures
        r@ == rsp_slot(offset),
{
    let mut r = String::from_str("qword ptr [rsp + ");
    let d = int_to_string(offset as i128 - 8);
    r.append(d.as_str());
    r.append("]");
    r
}

impl AssemblyCompiler {
    /// `self` is `before` with `text` appended to the code, and nothing else changed.
    pub open spec fn appended(&self, before: &AssemblyCompiler, text: Seq<char>) -> bool {
        &&& self.model() == append_out(before.model(), text)
        &&& self.arrays == before.arrays
        &&& self.builtins == before.builtins
        &&& self.loop_stack@ == before.loop_stack@
        &&& self.compile_options == before.compile_options
    }

    /// A numeral without its `u64` suffix.
    pub fn parse_number(&self, number_str: &str) -> (r: String)
        ensures
            r@ == u64_literal(number_str@),
    {
        SyscallCompiler::parse_number(number_str)
    }

    /// Loads a numeral or a variable into `register`; an unknown variable loads 0.
    pub fn load_proc_argument_into_register(&mut self, arg: &ProcTerm, register: &str) -> (r: Result<(), CompileError>)
        ensures
            final(self).appended(old(self), asm_argument(old(self).frame().vars, *arg, register@).0),
            result_view(r) == asm_argument(old(self).frame().vars, *arg, register@).1,
    {
        match arg {
            ProcTerm::Number(number) => {
                let value = self.parse_number(number.number.as_str());
                emit_mov(&mut self.output, register, value.as_str());
                Ok(())
            },
            ProcTerm::Variable(var) => {
                match self.variables.get(var.variable.as_str()) {
                    Some(offset) => {
                        let st = rsp_slot_text(*offset);
                        emit_mov(&mut self.output, register, st.as_str());
                    },
                    None => {
                        emit_mov(&mut self.output, register, "0");
                    },
                }
                Ok(())
            },
            _ => Err(unsupported("Unsupported argument type: ", proc_term_kind_text(arg))),
        }
    }

    fn syscall_operands_from(&mut self, args: &[ProcTerm], i: usize) -> (r: Result<(), CompileError>)
        requires
            args@.len() <= 6,
            i <= args@.len(),
        ensures
            final(self).appended(old(self), asm_syscall_operands(args@, old(self).frame().vars, i as int).0),
            result_view(r) == asm_syscall_operands(args@, old(self).frame().vars, i as int).1,
        decreases args@.len() - i,
    {
        if i >= args.len() {
            assert(self.output@ =~= old(self).output@ + Seq::<char>::empty());
            return Ok(());
        }
        let reg = syscall_register_text(i);
        match &args[i] {
            ProcTerm::Number(num) => {
                let value = self.parse_number(num.number.as_str());
                emit_mov(&mut self.output, reg, value.as_str());
                let ghost mid = self.output@;
                let r = self.syscall_operands_from(args, i + 1);
                assert(self.output@ =~= old(self).output@ + asm_syscall_operands(args@, old(self).frame().vars, i as int).0);
                r
            },
            ProcTerm::Variable(var) => match self.variables.get(var.variable.as_str()) {
                Some(offset) => {
                    let st = rsp_slot_text(*offset);
                    emit_mov(&mut self.output, reg, st.as_str());
                    let r = self.syscall_operands_from(args, i + 1);
                    assert(self.output@ =~= old(self).output@ + asm_syscall_operands(args@, old(self).frame().vars, i as int).0);
                    r
                },
                None => {
                    assert(self.output@ =~= old(self).output@ + Seq::<char>::empty());
                    Err(unsupported("Unknown variable: ", var.variable.as_str()))
                },
            },
            _ => {
                assert(self.output@ =~= old(self).output@ + Seq::<char>::empty());
                Err(CompileError::InvalidSyscall)
            },
        }
    }

    /// A system call on six operands.
    pub fn compile_proc_syscall(&mut self, args: &[ProcTerm]) -> (r: Result<(), CompileError>)
        ensures
            final(self).appended(old(self), asm_syscall_code(args@, old(self).frame().vars).0),
            result_view(r) == asm_syscall_code(args@, old(self).frame().vars).1,
    {
        if args.len() != 6 {
            assert(self.output@ =~= old(self).output@ + Seq::<char>::empty());
            return Err(CompileError::InvalidSyscall);
        }
        match self.syscall_operands_from(args, 0) {
            Err(e) => Err(e),
            Ok(()) => {
                emit(&mut self.output, "syscall");
                assert(self.output@ =~= old(self).output@ + asm_syscall_code(args@, old(self).frame().vars).0);
                Ok(())
            },
        }
    }

    /// A variable: its value into `rax`.
    pub fn compile_proc_variable(&mut self, var: &ProcTermVariable) -> (r: Result<(), CompileError>)
        ensures
            asm_base_step(old(self).model(), ProcTerm::Variable(*var), final(self).model(), result_view(r)),
            final(self).arrays == old(self).arrays,
            final(self).builtins == old(self).builtins,
            final(self).loop_stack@ == old(self).loop_stack@,
            final(self).compile_options == old(self).compile_options,
    {
        match self.variables.get(var.variable.as_str()) {
            Some(offset) => {
                let st = rsp_slot_text(*offset);
                emit_mov(&mut self.output, "rax", st.as_str());
                Ok(())
            },
            None => Err(unsupported("Unknown variable: ", var.variable.as_str())),
        }
    }

    /// A call: only the `syscall` builtin is supported.
    pub fn compile_proc_apply(&mut self, apply: &ProcTermApply) -> (r: Result<(), CompileError>)
        requires
            !asm_calls_procedure(old(self).builtins@, ProcTerm::Apply(*apply)),
        ensures
            final(self).appended(old(self), asm_apply(old(self).model(), *apply).0),
            result_view(r) == asm_apply(old(self).model(), *apply).1,
    {
        let is_syscall = match &*apply.f {
            ProcTerm::Variable(var) => match self.builtins.get(var.variable.as_str()) {
                Some(builtin) => is_text(builtin.as_str(), "syscall"),
                None => false,
            },
            _ => false,
        };
        if is_syscall {
            return self.compile_proc_syscall(apply.args.as_slice());
        }
        assert(self.output@ =~= old(self).output@ + Seq::<char>::empty());
        Err(CompileError::UnsupportedConstruct(String::from_str("Apply")))
    }

    fn emit_index(&mut self, index: &ProcTerm, es: usize) -> (r: Result<(), CompileError>)
        ensures
            final(self).appended(old(self), asm_index_code(old(self).frame().vars, *index, es as nat).0),
            result_view(r) == asm_index_code(old(self).frame().vars, *index, es as nat).1,
    {
        match index {
            ProcTerm::Number(num) => {
                let idx_text = crate::arrays::parse_number(num.number.as_str());
                let k: u128 = match crate::compile_text::parse_usize_text(idx_text.as_str()) {
                    Some(v) => v as u128,
                    None => 0,
                };
                assert(k * es <= u128::MAX) by (nonlinear_arith)
                    requires
                        k <= usize::MAX,
                        es <= usize::MAX,
                ;
                let product = k * (es as u128);
                if product > 0 {
                    let t = nat_to_string(product);
                    let a = join2("add rax, ", t.as_str());
                    emit(&mut self.output, a.as_str());
                } else {
                    assert(self.output@ =~= old(self).output@ + Seq::<char>::empty());
                }
                Ok(())
            },
            ProcTerm::Variable(var) => {
                match self.variables.get(var.variable.as_str()) {
                    Some(off) => {
                        let st = rsp_slot_text(*off);
                        emit_mov(&mut self.output, "rbx", st.as_str());
                        let e = crate::compile_text::usize_text(es);
                        emit_mov(&mut self.output, "rcx", e.as_str());
                        emit(&mut self.output, "imul rbx, rcx");
                        emit(&mut self.output, "add rax, rbx");
                        assert(self.output@ =~= old(self).output@ + asm_index_code(old(self).frame().vars, *index, es as nat).0);
                    },
                    None => {
                        assert(self.output@ =~= old(self).output@ + Seq::<char>::empty());
                    },
                }
                Ok(())
            },
            _ => {
                assert(self.output@ =~= old(self).output@ + Seq::<char>::empty());
                Err(unsupported("Unsupported index type in field access: ", proc_term_kind_text(index)))
            },
        }
    }

    /// A field of an array: the address of the element into `rax`.
    #[verifier::spinoff_prover]
    #[verifier::rlimit(60)]
    pub fn compile_proc_field_access(&mut self, field_access: &ProcTermFieldAccess) -> (r: Result<(), CompileError>)
        requires
            old(self).wf(),
        ensures
            final(self).appended(
                old(self),
                asm_field_access(old(self).arrays@, old(self).frame().vars, old(self).frame().x.varr, *field_access).0,
            ),
            result_view(r) == asm_field_access(
                old(self).arrays@,
                old(self).frame().vars,
                old(self).frame().x.varr,
                *field_access,
            ).1,
    {
        let object_name = field_access.object_name();
        let field_name = field_access.field_name();
        let mut ptr = String::from_str(object_name);
        ptr.append("_");
        ptr.append(field_name);
        ptr.append("_ptr");
        let ptr_offset = match self.variables.get(ptr.as_str()) {
            Some(o) => *o,
            None => {
                assert(self.output@ =~= old(self).output@ + Seq::<char>::empty());
                return Err(unsupported("Unknown variable: ", object_name));
            },
        };
        let st = rsp_slot_text(ptr_offset);
        emit_mov(&mut self.output, "rax", st.as_str());
        let ghost head_out = self.output@;
        match &field_access.index {
            Some(index_term) => {
                let element_size = match self.variable_arrays.get(object_name) {
                    Some(array_type) => match self.arrays.get(array_type.as_str()) {
                        Some(array_info) => Some(
                            crate::arrays::get_element_size(
                                array_info.field_types.as_slice(),
                                array_info.field_names.as_slice(),
                                field_name,
                            ),
                        ),
                        None => None,
                    },
                    None => None,
                };
                match element_size {
                    Some(Ok(es)) => {
                        let r = self.emit_index(index_term, es);
                        assert(self.output@ =~= old(self).output@ + asm_field_access(
                            old(self).arrays@,
                            old(self).frame().vars,
                            old(self).frame().x.varr,
                            *field_access,
                        ).0);
                        r
                    },
                    Some(Err(e)) => Err(e),
                    None => Ok(()),
                }
            },
            None => Ok(()),
        }
    }

    /// The size operand of an array constructor.
    fn size_operand(&mut self, constructor_call: &ProcTermConstructorCall) -> (r: Result<String, CompileError>)
        ensures
            final(self).appended(old(self), asm_size_operand(*constructor_call, old(self).frame().vars).0),
            match asm_size_operand(*constructor_call, old(self).frame().vars).1 {
                Ok(t) => r matches Ok(v) && v@ == t,
                Err(e) => r matches Err(x) && x@ == e,
            },
    {
        assert(self.output@ =~= old(self).output@ + Seq::<char>::empty());
        if constructor_call.args.len() == 0 {
            return Err(
                CompileError::UnsupportedConstruct(String::from_str("Missing size argument for array constructor")),
            );
        }
        match &constructor_call.args[0] {
            ProcTerm::Number(num) => Ok(num.number.clone()),
            ProcTerm::Variable(var) => match self.variables.get(var.variable.as_str()) {
                Some(offset) => {
                    let st = rsp_slot_text(*offset);
                    emit_mov(&mut self.output, "rsi", st.as_str());
                    Ok(String::from_str("rsi"))
                },
                None => Err(unsupported("Unknown variable in array size: ", var.variable.as_str())),
            },
            _ => Err(unsupported("Unsupported size argument type: ", proc_term_kind_text(&constructor_call.args[0]))),
        }
    }

    #[verifier::spinoff_prover]
    #[verifier::rlimit(60)]
    fn constructor_with(&mut self, constructor_call: &ProcTermConstructorCall, var_name: Option<&str>) -> (r: Result<(), CompileError>)
        requires
            old(self).wf(),
        ensures
            asm_constructor_step(
                old(self).model(),
                *constructor_call,
                match var_name {
                    Some(v) => Some(v@),
                    None => None,
                },
                final(self).model(),
                result_view(r),
            ),
            final(self).loop_stack@ == old(self).loop_stack@,
            final(self).compile_options == old(self).compile_options,
            final(self).builtins == old(self).builtins,
            final(self).wf(),
    {
        let array_type = constructor_call.array_type.as_str();
        let name = join3(array_type, "::", constructor_call.method.as_str());
        if !contains_exec(name.as_str(), "::new_with_size") {
            return Err(unsupported("Constructor call not yet implemented: ", name.as_str()));
        }
        let array_info = match self.arrays.get(array_type) {
            Some(info) => info.duplicate(),
            None => {
                return Err(unsupported("Array type not found: ", array_type));
            },
        };
        let ghost info = self.arrays@[array_type@];
        proof {
            assert(texts(array_info.field_names@).len() == array_info.field_names@.len());
            assert(texts(info.field_names@).len() == info.field_names@.len());
            assert(texts(array_info.field_types@).len() == array_info.field_types@.len());
            assert(texts(info.field_types@).len() == info.field_types@.len());
        }
        let size = match self.size_operand(constructor_call) {
            Ok(t) => t,
            Err(e) => {
                return Err(e);
            },
        };
        let ghost arrays_before = self.arrays@;
        let r = match var_name {
            Some(v) => crate::arrays::generate_soa_allocation_with_var(
                v,
                &array_info,
                size.as_str(),
                &mut self.output,
                &mut self.stack_offset,
                &mut self.variables,
            ),
            None => crate::arrays::generate_soa_allocation(
                array_type,
                &array_info,
                size.as_str(),
                &mut self.output,
                &mut self.stack_offset,
                &mut self.variables,
                &mut self.arrays,
            ),
        };
        proof {
            assert(names_of(array_info) == names_of(info));
            assert(types_of(array_info) == types_of(info));
            if var_name is None && r is Ok {
                let k0 = array_type@;
                assert forall|k: Seq<char>| #[trigger] self.arrays@.contains_key(k) implies self.arrays@[k].field_names@.len()
                    <= self.arrays@[k].field_types@.len() by {
                    if k == k0 {
                        assert(texts(self.arrays@[k].field_names@).len() == self.arrays@[k].field_names@.len());
                        assert(texts(self.arrays@[k].field_types@).len() == self.arrays@[k].field_types@.len());
                    } else {
                        assert(arrays_before.contains_key(k));
                    }
                }
            }
        }
        r
    }

    /// `Type::new_with_size n`: allocates the arrays of the fields of `Type`, and records
    /// the size in the array type.
    pub fn compile_proc_constructor_call(&mut self, constructor_call: &ProcTermConstructorCall) -> (r: Result<(), CompileError>)
        requires
            old(self).wf(),
        ensures
            asm_constructor_step(old(self).model(), *constructor_call, None, final(self).model(), result_view(r)),
            final(self).loop_stack@ == old(self).loop_stack@,
            final(self).compile_options == old(self).compile_options,
            final(self).builtins == old(self).builtins,
            final(self).wf(),
    {
        self.constructor_with(constructor_call, None)
    }

    /// `#let v = Type::new_with_size n;`: allocates the arrays of the fields of `Type` under
    /// the name `v`.
    pub fn compile_proc_constructor_call_with_var(
        &mut self,
        constructor_call: &ProcTermConstructorCall,
        var_name: &str,
    ) -> (r: Result<(), CompileError>)
        requires
            old(self).wf(),
        ensures
            asm_constructor_step(old(self).model(), *constructor_call, Some(var_name@), final(self).model(), result_view(r)),
            final(self).loop_stack@ == old(self).loop_stack@,
            final(self).compile_options == old(self).compile_options,
            final(self).builtins == old(self).builtins,
            final(self).wf(),
    {
        self.constructor_with(constructor_call, Some(var_name))
    }
}

impl AssemblyCompiler {
    /// A procedure term; its value ends up in `rax`.
    pub fn compile_proc_term(&mut self, proc_term: &ProcTerm) -> (r: Result<(), CompileError>)
        requires
            old(self).wf(),
            !asm_calls_procedure(old(self).builtins@, *proc_term),
        ensures
            asm_term_step(old(self).model(), *proc_term, final(self).model(), result_view(r)),
            final(self).loop_stack@ == old(self).loop_stack@,
            final(self).compile_options == old(self).compile_options,
            final(self).builtins == old(self).builtins,
            final(self).wf(),
        decreases proc_term,
    {
        if let ProcTerm::Dereference(dereference) = proc_term {
            return self.compile_proc_dereference(dereference);
        }
        let r = match proc_term {
            ProcTerm::Apply(apply) => self.compile_proc_apply(apply),
            ProcTerm::Variable(var) => self.compile_proc_variable(var),
            ProcTerm::FieldAccess(field_access) => self.compile_proc_field_access(field_access),
            ProcTerm::ConstructorCall(constructor_call) => self.compile_proc_constructor_call(constructor_call),
            ProcTerm::If(if_expr) => compile_proc_if(self, if_expr),
            _ => Err(CompileError::UnsupportedConstruct(String::from_str(proc_term_kind_text(proc_term)))),
        };
        proof {
            lemma_base_step(old(self).model(), *proc_term, self.model(), result_view(r));
        }
        r
    }

    /// `term.*`: the term's value is an address, and a 4-byte value is loaded through it.
    pub fn compile_proc_dereference(&mut self, dereference: &ProcTermDereference) -> (r: Result<(), CompileError>)
        requires
            old(self).wf(),
            !asm_calls_procedure(old(self).builtins@, *dereference.term),
        ensures
            asm_term_step(old(self).model(), ProcTerm::Dereference(*dereference), final(self).model(), result_view(r)),
            final(self).loop_stack@ == old(self).loop_stack@,
            final(self).compile_options == old(self).compile_options,
            final(self).builtins == old(self).builtins,
            final(self).wf(),
        decreases dereference,
    {
        let inner = self.compile_proc_term(&dereference.term);
        let ghost m1 = self.model();
        match inner {
            Err(e) => {
                assert(asm_term_step(old(self).model(), *dereference.term, m1, Err(e@)));
                proof {
                    lemma_deref_step(old(self).model(), *dereference, m1, Err(e@), self.model(), Err(e@));
                }
                Err(e)
            },
            Ok(()) => {
                emit(&mut self.output, "mov eax, dword ptr [rax]");
                assert(self.model() == append_out(m1, line("mov eax, dword ptr [rax]"@)));
                proof {
                    lemma_deref_step(old(self).model(), *dereference, m1, Ok(()), self.model(), Ok(()));
                }
                Ok(())
            },
        }
    }

    /// `#return value;`: the value's code; its value stays in `rax`.
    pub fn compile_return(&mut self, return_stmt: &StatementReturn) -> (r: Result<(), CompileError>)
        requires
            old(self).wf(),
            !asm_calls_procedure(old(self).builtins@, *return_stmt.value),
        ensures
            asm_term_step(old(self).model(), *return_stmt.value, final(self).model(), result_view(r)),
            final(self).loop_stack@ == old(self).loop_stack@,
            final(self).compile_options == old(self).compile_options,
            final(self).builtins == old(self).builtins,
            final(self).wf(),
    {
        match self.compile_proc_term(&return_stmt.value) {
            Err(e) => Err(e),
            Ok(()) => Ok(()),
        }
    }
}

/// The comparison of a conditional into `compiler`'s code.
fn compile_condition(compiler: &mut AssemblyCompiler, condition: &Statements, target: &str) -> (r: Result<(), CompileError>)
    ensures
        final(compiler).appended(old(compiler), asm_condition(old(compiler).model(), *condition, target@).0),
        result_view(r) == asm_condition(old(compiler).model(), *condition, target@).1,
{
    assert(compiler.output@ =~= old(compiler).output@ + Seq::<char>::empty());
    match condition {
        Statements::Statement(statement) => match &**statement {
            Statement::Expr(ProcTerm::Apply(apply)) => {
                let is_eq = match &*apply.f {
                    ProcTerm::Variable(var) => match compiler.builtins.get(var.variable.as_str()) {
                        Some(builtin) => is_text(builtin.as_str(), "u64_eq"),
                        None => false,
                    },
                    _ => false,
                };
                if !is_eq {
                    return Err(unsupported("Unsupported condition in if: ", statements_kind_text(condition)));
                }
                if apply.args.len() != 2 {
                    return Err(arity_error("u64_eq", "2 arguments", apply.args.len()));
                }
                match compiler.load_proc_argument_into_register(&apply.args[0], "rax") {
                    Err(e) => {
                        return Err(e);
                    },
                    Ok(()) => {},
                }
                let ghost mid = compiler.output@;
                match compiler.load_proc_argument_into_register(&apply.args[1], "rbx") {
                    Err(e) => {
                        assert(compiler.output@ =~= old(compiler).output@ + asm_condition(old(compiler).model(), *condition, target@).0);
                        return Err(e);
                    },
                    Ok(()) => {},
                }
                emit(&mut compiler.output, "cmp rax, rbx");
                let j = join2("jne ", target);
                emit(&mut compiler.output, j.as_str());
                assert(compiler.output@ =~= old(compiler).output@ + asm_condition(old(compiler).model(), *condition, target@).0);
                Ok(())
            },
            _ => Err(unsupported("Unsupported condition type in if: ", statements_kind_text(condition))),
        },
        _ => Err(unsupported("Unsupported condition type in if: ", statements_kind_text(condition))),
    }
}

/// A conditional on `u64_eq`: the comparison, the `then` body, and the `else` body if any.
#[verifier::spinoff_prover]
#[verifier::rlimit(60)]
pub fn compile_proc_if(compiler: &mut AssemblyCompiler, if_expr: &ProcTermIf) -> (r: Result<(), CompileError>)
    requires
        old(compiler).wf(),
    ensures
        (final(compiler).model(), result_view(r)) == asm_if(old(compiler).model(), *if_expr),
        final(compiler).loop_stack@ == old(compiler).loop_stack@,
        final(compiler).compile_options == old(compiler).compile_options,
        final(compiler).builtins == old(compiler).builtins,
        final(compiler).wf(),
{
    let label_id = next_label_exec(compiler.labels.if_labels);
    compiler.labels.if_labels = label_id;
    let end_label = crate::statement::label_text("if_end_", label_id);
    let else_label = crate::statement::label_text("if_else_", label_id);
    let ghost m0 = compiler.model();
    assert(m0 == with_labels(old(compiler).model(), asm_if_labels(old(compiler).frame().x.labels).2));
    let has_else = if_expr.else_clause.is_some();
    let target = if has_else {
        else_label.as_str()
    } else {
        end_label.as_str()
    };
    let ghost labels = asm_if_labels(old(compiler).frame().x.labels);
    proof {
        assert(labels.0 == else_label@ && labels.1 == end_label@);
        assert(target@ == if if_expr.else_clause is Some { labels.0 } else { labels.1 });
    }
    match compile_condition(compiler, &if_expr.condition, target) {
        Err(e) => {
            return Err(e);
        },
        Ok(()) => {},
    }
    let ghost mc = compiler.model();
    assert(mc == append_out(m0, asm_condition(m0, *if_expr.condition, target@).0));
    assert(env_of(mc) == compiler.env());
    match compiler.compile_statements(&if_expr.then_body) {
        Err(e) => {
            assert(compiler.model() == asm_stmts(mc, *if_expr.then_body).0);
            return Err(e);
        },
        Ok(()) => {},
    }
    let ghost mt = compiler.model();
    assert(mt == asm_stmts(mc, *if_expr.then_body).0);
    match &if_expr.else_clause {
        Some(else_clause) => {
            let j = join2("jmp ", end_label.as_str());
            emit(&mut compiler.output, j.as_str());
            emit_label(&mut compiler.output, else_label.as_str());
            let ghost before_else = compiler.model();
            proof {
                assert(compiler.output@ =~= mt.frame.x.out + (line("jmp "@ + end_label@) + else_label@ + ":\n"@));
                assert(before_else == append_out(mt, line("jmp "@ + end_label@) + else_label@ + ":\n"@));
                assert(env_of(before_else) == compiler.env());
            }
            match compiler.compile_statements(&else_clause.else_body) {
                Err(e) => {
                    assert(compiler.model() == asm_stmts(before_else, *else_clause.else_body).0);
                    return Err(e);
                },
                Ok(()) => {},
            }
            let ghost me = compiler.model();
            assert(me == asm_stmts(before_else, *else_clause.else_body).0);
            emit_label(&mut compiler.output, end_label.as_str());
            assert(compiler.output@ =~= me.frame.x.out + (end_label@ + ":\n"@));
            assert(compiler.model() == append_out(me, end_label@ + ":\n"@));
            Ok(())
        },
        None => {
            emit_label(&mut compiler.output, end_label.as_str());
            assert(compiler.output@ =~= mt.frame.x.out + (end_label@ + ":\n"@));
            assert(compiler.model() == append_out(mt, end_label@ + ":\n"@));
            Ok(())
        },
    }
}

/// The labels of a loop the program compiler compiles: its counter is advanced first.
pub open spec fn asm_loop_labels(labels: LabelCounters) -> (Seq<char>, Seq<char>, LabelCounters) {
    let id = next_label(labels.loop_labels);
    (
        "loop_start_"@ + decimal(id as nat),
        "loop_end_"@ + decimal(id as nat),
        LabelCounters { if_labels: labels.if_labels, loop_labels: id, break_if_labels: labels.break_if_labels },
    )
}

/// A loop of the program compiler: its start label, its body, the jump back, its end label.
pub open spec fn asm_loop(m: AsmModel, l: StatementLoop) -> (AsmModel, Result<(), SCompileError>) {
    let labels = asm_loop_labels(m.frame.x.labels);
    let m0 = append_out(with_labels(m, labels.2), labels.0 + ":\n"@);
    let b = asm_stmts(m0, *l.body);
    match b.1 {
        Err(_) => b,
        Ok(_) => (append_out(b.0, line("jmp "@ + labels.0) + labels.1 + ":\n"@), Ok(())),
    }
}

/// A loop; while its body compiles, its end label is the innermost on the loop stack.
#[verifier::spinoff_prover]
#[verifier::rlimit(60)]
pub fn compile_loop(compiler: &mut AssemblyCompiler, loop_stmt: &StatementLoop) -> (r: Result<(), CompileError>)
    requires
        old(compiler).wf(),
    ensures
        (final(compiler).model(), result_view(r)) == asm_loop(old(compiler).model(), *loop_stmt),
        texts(final(compiler).loop_stack@) == if r is Ok {
            texts(old(compiler).loop_stack@)
        } else {
            texts(old(compiler).loop_stack@).push(asm_loop_labels(old(compiler).frame().x.labels).1)
        },
        final(compiler).compile_options == old(compiler).compile_options,
        final(compiler).wf(),
{
    let loop_id = next_label_exec(compiler.labels.loop_labels);
    compiler.labels.loop_labels = loop_id;
    let loop_start_label = crate::statement::label_text("loop_start_", loop_id);
    let loop_end_label = crate::statement::label_text("loop_end_", loop_id);
    compiler.loop_stack.push(loop_end_label.clone());
    emit_label(&mut compiler.output, loop_start_label.as_str());
    let ghost labels = asm_loop_labels(old(compiler).frame().x.labels);
    let ghost m0 = compiler.model();
    proof {
        assert(compiler.output@ =~= old(compiler).output@ + (loop_start_label@ + ":\n"@));
        assert(texts(compiler.loop_stack@) =~= texts(old(compiler).loop_stack@).push(loop_end_label@));
        assert(labels.0 == loop_start_label@ && labels.1 == loop_end_label@);
        assert(m0 == append_out(with_labels(old(compiler).model(), labels.2), labels.0 + ":\n"@));
        assert(env_of(m0) == compiler.env());
    }
    match compiler.compile_statements(&loop_stmt.body) {
        Err(e) => {
            assert(compiler.model() == asm_stmts(m0, *loop_stmt.body).0);
            return Err(e);
        },
        Ok(()) => {},
    }
    let ghost mb = compiler.model();
    assert(mb == asm_stmts(m0, *loop_stmt.body).0);
    let ghost b_out = compiler.output@;
    let j = join2("jmp ", loop_start_label.as_str());
    emit(&mut compiler.output, j.as_str());
    emit_label(&mut compiler.output, loop_end_label.as_str());
    compiler.loop_stack.pop();
    proof {
        assert(compiler.output@ =~= b_out + (line("jmp "@ + loop_start_label@) + loop_end_label@ + ":\n"@));
        assert(compiler.loop_stack@ =~= old(compiler).loop_stack@);
        assert(compiler.model() == append_out(mb, line("jmp "@ + labels.0) + labels.1 + ":\n"@));
    }
    Ok(())
}

/// `#break;`: a jump to the end of the innermost loop.
pub fn compile_break(compiler: &mut AssemblyCompiler, _break_stmt: &StatementBreak) -> (r: Result<(), CompileError>)
    ensures
        match old(compiler).loop_stack@.last() {
            _ if old(compiler).loop_stack@.len() == 0 => final(compiler).appended(old(compiler), Seq::empty()) && result_view(r) == Err::<(), SCompileError>(err("break statement outside of loop"@)),
            l => final(compiler).appended(old(compiler), line("jmp "@ + l@)) && r is Ok,
        },
{
    let n = compiler.loop_stack.len();
    if n == 0 {
        assert(compiler.output@ =~= old(compiler).output@ + Seq::<char>::empty());
        return Err(CompileError::UnsupportedConstruct(String::from_str("break statement outside of loop")));
    }
    let j = join2("jmp ", compiler.loop_stack[n - 1].as_str());
    emit(&mut compiler.output, j.as_str());
    Ok(())
}

/// A code text, or an error, as a value.
pub open spec fn text_result_view(r: Result<String, CompileError>) -> Result<Seq<char>, SCompileError> {
    match r {
        Ok(t) => Ok(t@),
        Err(e) => Err(e@),
    }
}

/// The model of a fresh compiler.
pub open spec fn initial_model() -> AsmModel {
    AsmModel {
        entry: None,
        builtins: Map::empty(),
        arrays: Map::empty(),
        frame: frame_of(
            Map::empty(),
            Map::empty(),
            0,
            xs(Seq::empty(), Map::empty(), LabelCounters { if_labels: 0, loop_labels: 0, break_if_labels: 0 }),
        ),
    }
}

impl AssemblyCompiler {
    /// A whole program: its header, its items in order, and the start routine that calls
    /// the entry point; the code is returned.
    #[verifier::spinoff_prover]
    #[verifier::rlimit(60)]
    pub fn compile_file(&mut self, file: &File) -> (r: Result<String, CompileError>)
        requires
            old(self).wf(),
            forall|i: int| 0 <= i < file.items@.len() ==> item_fits(#[trigger] file.items@[i]),
        ensures
            file_outcome(
                old(self).model(),
                file.items@,
                old(self).compile_options.use_ptx,
                final(self).model(),
                text_result_view(r),
            ),
    {
        let ghost m0 = self.model();
        let use_ptx = self.compile_options.use_ptx;
        if !use_ptx {
            self.output.append(".intel_syntax noprefix\n");
            self.output.append(".section .text\n");
            self.output.append(".globl _start\n\n");
        } else {
            self.output.append(".intel_syntax noprefix\n");
            self.output.append("\n    .text\n    .globl\t__cu_device\n    .bss\n    .align 4\n    .type\t__cu_device, @object\n    .size\t__cu_device, 4\n__cu_device:\n    .zero\t4\n    .globl\t__cu_context\n    .align 8\n    .type\t__cu_context, @object\n    .size\t__cu_context, 8\n__cu_context:\n    .zero\t8\n    .globl\t__cu_module\n    .align 8\n    .type\t__cu_module, @object\n    .size\t__cu_module, 8\n__cu_module:\n    .zero\t8\n    .globl\t__cu_function\n    .align 8\n    .type\t__cu_function, @object\n    .size\t__cu_function, 8\n__cu_function:\n    .zero\t8\n    .globl\t__cu_device_ptr\n    .align 8\n    .type\t__cu_device_ptr, @object\n    .size\t__cu_device_ptr, 8\n__cu_device_ptr:\n    .zero\t8\n");
            self.output.append(".section .text\n");
            self.output.append(".globl main\n\n");
        }
        proof {
            assert(self.output@ =~= old(self).output@ + file_header(use_ptx));
            assert(self.model() == append_out(m0, file_header(use_ptx)));
        }
        let items = file.items();
        let ghost mut trace: Seq<AsmModel> = seq![self.model()];
        let mut i: usize = 0;
        while i < items.len()
            invariant
                items@ == file.items@,
                forall|j: int| 0 <= j < items@.len() ==> item_fits(#[trigger] items@[j]),
                i <= items@.len(),
                trace.len() == i + 1,
                trace_ok(items@, trace),
                trace[0] == append_out(m0, file_header(use_ptx)),
                trace[i as int] == self.model(),
                self.wf(),
                self.compile_options == old(self).compile_options,
                use_ptx == old(self).compile_options.use_ptx,
                m0 == old(self).model(),
            decreases items@.len() - i,
        {
            let ghost before = self.model();
            let r = self.compile_item(&items[i]);
            match r {
                Err(e) => {
                    proof {
                        assert(item_step(trace[i as int], items@[i as int], self.model(), Err(e@)));
                        assert(trace_ok(items@, trace));
                    }
                    return Err(e);
                },
                Ok(()) => {},
            }
            proof {
                let old_trace = trace;
                trace = trace.push(self.model());
                assert forall|j: int| 0 <= j < trace.len() - 1 implies #[trigger] item_step(trace[j], items@[j], trace[j + 1], Ok(())) by {
                    if j < i {
                        assert(trace[j] == old_trace[j] && trace[j + 1] == old_trace[j + 1]);
                    }
                }
            }
            i = i + 1;
        }
        assert(trace_ok(items@, trace));
        let entry = match &self.entrypoint {
            Some(ep) => ep.clone(),
            None => {
                return Err(CompileError::EntrypointNotFound);
            },
        };
        let ghost last = self.model();
        if !use_ptx {
            self.output.append("_start:\n");
            self.output.append("    call ");
            self.output.append(entry.as_str());
            self.output.append("\n");
            self.output.append("    mov rax, 60\n");
            self.output.append("    mov rdi, 0\n");
            self.output.append("    syscall\n");
        } else {
            self.output.append("main:\n");
            self.output.append("    push rbp\n");
            self.output.append("\n    # cuInit(0)\n    mov     edi, 0\n    call    cuInit@PLT\n    # cuDeviceGet(&cu_device, 0)\n    mov\t    esi, 0\n    lea\t    rdi, __cu_device[rip]\n    call    cuDeviceGet@PLT\n    # cuCtxCreate_v2(&cu_context, 0, cu_device)\n    mov\t    eax, DWORD PTR __cu_device[rip]\n    mov\t    edx, eax\n    mov\t    esi, 0\n    lea\t    rdi, __cu_context[rip]\n    call    cuCtxCreate_v2@PLT\n");
            self.output.append("    call ");
            self.output.append(entry.as_str());
            self.output.append("\n");
            self.output.append("    mov rax, 60\n");
            self.output.append("    mov rdi, 0\n");
            self.output.append("    syscall\n");
            self.output.append("    pop rbp\n");
        }
        proof {
            assert(self.output@ =~= last.frame.x.out + file_trailer(use_ptx, entry@));
            assert(self.model() == append_out(last, file_trailer(use_ptx, entry@)));
        }
        Ok(self.output.clone())
    }
}

/// Compiles a program to assembly with a fresh compiler.
pub fn compile_to_assembly(file: &File, compile_options: CompileOptions) -> (r: Result<String, CompileError>)
    requires
        forall|i: int| 0 <= i < file.items@.len() ==> item_fits(#[trigger] file.items@[i]),
    ensures
        exists|m: AsmModel| file_outcome(initial_model(), file.items@, compile_options.use_ptx, m, text_result_view(r)),
        r matches Ok(text) ==> file_header(compile_options.use_ptx).is_prefix_of(text@),
{
    let mut compiler = AssemblyCompiler::new(compile_options);
    let r = compiler.compile_file(file);
    assert(file_outcome(initial_model(), file.items@, compile_options.use_ptx, compiler.model(), text_result_view(r)));
    proof {
        if r is Ok {
            let text = r->Ok_0@;
            lemma_program_layout(initial_model(), file.items@, compile_options.use_ptx, compiler.model(), text);
            assert(initial_model().frame.x.out + file_header(compile_options.use_ptx) =~= file_header(
                compile_options.use_ptx,
            ));
        }
    }
    r
}

} // verus!
