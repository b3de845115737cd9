use vstd::prelude::*;

use crate::codegen::{
    arity_message, contains_text, line, next_label, slot, texts, ArrayInfo, LabelCounters,
    SCompileError,
};
use crate::compile_text::{cut, first_alpha, has_suffix, hex8, parse_usize, trim_all};
use crate::syntax::{
    proc_term_kind, ProcTerm, ProcTermApply, ProcTermConstructorCall, ProcTermDereference,
    ProcTermFieldAccess, ProcTermIf, ProcTermNumber, Statement, StatementAssign,
    StatementFieldAssign, StatementLet, StatementLetMut, StatementLoop, Statements,
};
use crate::syscall::{mov, syscall_argument, syscall_code, u64_literal, unknown_variable};
use crate::text::{decimal, int_text};

verus! {

// The meaning of the statement compiler: what code each construct emits, and what the
// compiler's tables look like afterwards.

/// What the compiler only reads: the builtins in scope and the array types.
pub struct Env {
    pub builtins: Map<Seq<char>, String>,
    pub arrays: Map<Seq<char>, ArrayInfo>,
}

/// What compiling an expression changes: the code, the array type of each variable, and
/// the label counters.
pub struct XState {
    pub out: Seq<char>,
    pub varr: Map<Seq<char>, String>,
    pub labels: LabelCounters,
}

pub struct XOutcome {
    pub state: XState,
    pub result: Result<(), SCompileError>,
}

/// What compiling an integer operand changes: the code and the label counters.
pub struct Code {
    pub out: Seq<char>,
    pub labels: LabelCounters,
}

pub struct COutcome {
    pub code: Code,
    pub result: Result<(), SCompileError>,
}

pub open spec fn code_of(x: XState) -> Code {
    Code { out: x.out, labels: x.labels }
}

/// An operand's compilation inside an expression: the array types of variables stay.
pub open spec fn lift_x(x: XState, o: COutcome) -> XOutcome {
    XOutcome { state: XState { out: o.code.out, varr: x.varr, labels: o.code.labels }, result: o.result }
}

pub open spec fn c_ok(c: Code) -> COutcome {
    COutcome { code: c, result: Ok(()) }
}

pub open spec fn c_fail(c: Code, e: SCompileError) -> COutcome {
    COutcome { code: c, result: Err(e) }
}

pub open spec fn emit_c(c: Code, s: Seq<char>) -> Code {
    Code { out: c.out + s, labels: c.labels }
}

/// The code that follows `o`, when `o` succeeded.
pub open spec fn c_then_emit(o: COutcome, tail: Seq<char>) -> COutcome {
    match o.result {
        Err(_) => o,
        Ok(_) => c_ok(emit_c(o.code, tail)),
    }
}

/// What compiling a statement changes besides: the stack slot of each variable, the
/// variable each reference stands for, and the stack offset.
pub struct Frame {
    pub vars: Map<Seq<char>, i32>,
    pub refs: Map<Seq<char>, String>,
    pub offset: i32,
    pub x: XState,
}

pub struct SOutcome {
    pub frame: Frame,
    pub result: Result<(), SCompileError>,
}

pub open spec fn err(m: Seq<char>) -> SCompileError {
    SCompileError::UnsupportedConstruct(m)
}

pub open spec fn x_ok(x: XState) -> XOutcome {
    XOutcome { state: x, result: Ok(()) }
}

pub open spec fn x_fail(x: XState, e: SCompileError) -> XOutcome {
    XOutcome { state: x, result: Err(e) }
}

pub open spec fn emit_x(x: XState, s: Seq<char>) -> XState {
    XState { out: x.out + s, varr: x.varr, labels: x.labels }
}

pub open spec fn s_ok(f: Frame) -> SOutcome {
    SOutcome { frame: f, result: Ok(()) }
}

pub open spec fn s_fail(f: Frame, e: SCompileError) -> SOutcome {
    SOutcome { frame: f, result: Err(e) }
}

pub open spec fn with_x(f: Frame, x: XState) -> Frame {
    Frame { vars: f.vars, refs: f.refs, offset: f.offset, x: x }
}

/// Whether every array description has a field type for each field name.
pub open spec fn arrays_wf(arrays: Map<Seq<char>, ArrayInfo>) -> bool {
    forall|k: Seq<char>| #[trigger] arrays.contains_key(k) ==> arrays[k].field_names@.len() <= arrays[k].field_types@.len()
}

/// The environment of the expressions that a dereference inside an argument compiles.
pub open spec fn bare_env(arrays: Map<Seq<char>, ArrayInfo>) -> Env {
    Env { builtins: Map::empty(), arrays: arrays }
}

/// A number literal as the statement compiler writes it: without a `u64` suffix, or an
/// `f32` literal as the hexadecimal bits of its value.
pub open spec fn number_text(n: ProcTermNumber) -> Seq<char> {
    if has_suffix(n.number@, "u64"@) {
        trim_all(n.number@, "u64"@)
    } else if has_suffix(n.number@, "f32"@) {
        match n.trimmed_float_bits {
            Some(b) => hex8(b),
            None => trim_all(n.number@, "f32"@),
        }
    } else {
        n.number@
    }
}

/// A numeral cut before its first letter.
pub open spec fn strip_type_suffix(s: Seq<char>) -> Seq<char> {
    match first_alpha(s) {
        Some(i) => s.subrange(0, i),
        None => s,
    }
}

/// The 4-byte stack slot at `offset`.
pub open spec fn dslot(offset: i32) -> Seq<char> {
    "dword ptr [rbp - 8 - "@ + int_text(offset - 8) + "]"@
}

/// The size in bytes of a value of the named type.
pub open spec fn type_size(t: Seq<char>) -> nat {
    if t == "f32"@ {
        4
    } else if t == "f64"@ {
        8
    } else if t == "u64"@ || t == "i64"@ {
        8
    } else if t == "u32"@ || t == "i32"@ {
        4
    } else if t == "u16"@ || t == "i16"@ {
        2
    } else if t == "u8"@ || t == "i8"@ {
        1
    } else {
        8
    }
}

/// The position of the first name equal to `name`.
pub open spec fn position(names: Seq<Seq<char>>, name: Seq<char>) -> Option<int>
    decreases names.len(),
{
    if names.len() == 0 {
        None
    } else if names[0] == name {
        Some(0)
    } else {
        match position(names.drop_first(), name) {
            Some(i) => Some(i + 1),
            None => None,
        }
    }
}

pub proof fn lemma_position(names: Seq<Seq<char>>, name: Seq<char>)
    ensures
        match position(names, name) {
            Some(i) => 0 <= i < names.len() && names[i] == name && forall|j: int| 0 <= j < i ==> names[j] != name,
            None => forall|j: int| 0 <= j < names.len() ==> names[j] != name,
        },
    decreases names.len(),
{
    if names.len() > 0 {
        lemma_position(names.drop_first(), name);
        assert forall|j: int| 1 <= j < names.len() implies names[j] == names.drop_first()[j - 1] by {}
    }
}

pub open spec fn unknown_field(name: Seq<char>) -> Seq<char> {
    "Unknown field: "@ + name
}

/// The type of the field `name`.
pub open spec fn field_type(names: Seq<Seq<char>>, types: Seq<Seq<char>>, name: Seq<char>) -> Result<
    Seq<char>,
    SCompileError,
> {
    match position(names, name) {
        Some(i) => Ok(types[i]),
        None => Err(err(unknown_field(name))),
    }
}

/// The element size of the field `name`.
pub open spec fn element_size(names: Seq<Seq<char>>, types: Seq<Seq<char>>, name: Seq<char>) -> Result<
    nat,
    SCompileError,
> {
    match position(names, name) {
        Some(i) => Ok(type_size(types[i])),
        None => Err(err(unknown_field(name))),
    }
}

/// The texts of the field names of an array description.
pub open spec fn names_of(info: ArrayInfo) -> Seq<Seq<char>> {
    texts(info.field_names@)
}

pub open spec fn types_of(info: ArrayInfo) -> Seq<Seq<char>> {
    texts(info.field_types@)
}

/// The address of `object.field index` into `rax`.
pub open spec fn field_access_code(arrays: Map<Seq<char>, ArrayInfo>, vars: Map<Seq<char>, i32>, varr: Map<Seq<char>, String>, fa: ProcTermFieldAccess) -> (Seq<
    char,
>, Result<(), SCompileError>) {
    let obj = fa.object@;
    let field = fa.field@;
    if field == "#len"@ {
        let size_var = obj + "_size"@;
        if vars.contains_key(size_var) {
            (mov("rax"@, slot(vars[size_var])), Ok(()))
        } else {
            (Seq::empty(), Err(err("Array size not found for: "@ + obj)))
        }
    } else {
        let ptr = obj + "_"@ + field + "_ptr"@;
        if vars.contains_key(ptr) {
            let head = mov("rax"@, slot(vars[ptr]));
            match fa.index {
                None => (head, Ok(())),
                Some(index) => if varr.contains_key(obj) && arrays.contains_key(varr[obj]@) {
                    let info = arrays[varr[obj]@];
                    match element_size(names_of(info), types_of(info), field) {
                        Err(er) => (head, Err(er)),
                        Ok(es) => match *index {
                            ProcTerm::Number(n) => {
                                let k = match parse_usize(strip_type_suffix(n.number@)) {
                                    Some(v) => v as nat,
                                    None => 0,
                                };
                                if k * es > 0 {
                                    (head + line("add rax, "@ + decimal(k * es)), Ok(()))
                                } else {
                                    (head, Ok(()))
                                }
                            },
                            ProcTerm::Variable(v) => if vars.contains_key(v.variable@) {
                                (
                                    head + mov("rbx"@, slot(vars[v.variable@])) + mov("rcx"@, decimal(es)) + line(
                                        "imul rbx, rcx"@,
                                    ) + line("add rax, rbx"@),
                                    Ok(()),
                                )
                            } else {
                                (head, Ok(()))
                            },
                            _ => (
                                head,
                                Err(err("Unsupported index type in field access: "@ + proc_term_kind(*index))),
                            ),
                        },
                    }
                } else {
                    (head, Ok(()))
                },
            }
        } else {
            (Seq::empty(), Err(err(unknown_variable(obj))))
        }
    }
}

/// The instruction that loads a value of the named type through the address in `rax`.
pub open spec fn load_through_rax(t: Seq<char>) -> Seq<char> {
    if t == "f32"@ || t == "u32"@ || t == "i32"@ {
        line("mov eax, dword ptr [rax]"@)
    } else if t == "u16"@ || t == "i16"@ {
        line("movzx rax, word ptr [rax]"@)
    } else if t == "u8"@ || t == "i8"@ {
        line("movzx rax, byte ptr [rax]"@)
    } else {
        line("mov rax, qword ptr [rax]"@)
    }
}

/// The load that follows the code of a dereferenced term.
pub open spec fn deref_load(arrays: Map<Seq<char>, ArrayInfo>, varr: Map<Seq<char>, String>, t: ProcTerm) -> Seq<char> {
    match t {
        ProcTerm::FieldAccess(fa) => if varr.contains_key(fa.object@) && arrays.contains_key(varr[fa.object@]@) {
            let info = arrays[varr[fa.object@]@];
            match field_type(names_of(info), types_of(info), fa.field@) {
                Ok(ft) => load_through_rax(ft),
                Err(_) => line("mov rax, qword ptr [rax]"@),
            }
        } else {
            line("mov rax, qword ptr [rax]"@)
        },
        _ => line("mov rax, qword ptr [rax]"@),
    }
}

/// The tables of a Structure-of-Arrays allocation: the code, the stack offset and the
/// variables afterwards.
pub struct Alloc {
    pub out: Seq<char>,
    pub offset: i32,
    pub vars: Map<Seq<char>, i32>,
    pub result: Result<(), SCompileError>,
}

pub open spec fn offset_overflow() -> SCompileError {
    err("Stack offset overflow"@)
}

/// The comment before the allocation of a field array.
pub open spec fn soa_comment(field: Seq<char>, ty: Seq<char>, with_var: bool) -> Seq<char> {
    let es = decimal(type_size(ty));
    if with_var {
        line("# Field '"@ + field + "': "@ + ty + " array ("@ + es + " bytes per element)"@)
    } else {
        line("# Allocating array for field '"@ + field + "' of type '"@ + ty + "' (element size: "@ + es + " bytes)"@)
    }
}

/// The load of the array size into `rsi`, unless it is there already.
pub open spec fn soa_size_load(size: Seq<char>) -> Seq<char> {
    if size != "rsi"@ {
        line("mov rsi, "@ + size + "        # Load array size"@)
    } else {
        Seq::empty()
    }
}

/// The size computation and the `mmap` call of a field array.
pub open spec fn soa_mmap(ty: Seq<char>, with_var: bool) -> Seq<char> {
    line("mov rax, "@ + decimal(type_size(ty)) + "   # Load element size"@) + line(
        "mul rsi                  # rax = element_size * array_length"@,
    ) + line(
        if with_var {
            "mov rsi, rax             # rsi = total_size for field array"@
        } else {
            "mov rsi, rax             # rsi = total_size for this field array"@
        },
    ) + line("mov rax, 9               # sys_mmap"@) + line(
        if with_var {
            "mov rdi, 0               # addr = NULL"@
        } else {
            "mov rdi, 0               # addr = NULL (let kernel choose)"@
        },
    ) + line("mov rdx, 3               # prot = PROT_READ | PROT_WRITE"@) + line(
        "mov r10, 34              # flags = MAP_PRIVATE | MAP_ANONYMOUS"@,
    ) + line(
        if with_var {
            "mov r8, -1               # fd = -1"@
        } else {
            "mov r8, -1               # fd = -1 (anonymous mapping)"@
        },
    ) + line("mov r9, 0                # offset = 0"@) + line("syscall"@)
}

/// The code that allocates, by `mmap`, the array of a field of the named type.
pub open spec fn soa_field_body(field: Seq<char>, ty: Seq<char>, size: Seq<char>, with_var: bool) -> Seq<char> {
    soa_comment(field, ty, with_var) + soa_size_load(size) + soa_mmap(ty, with_var)
}

/// The comment lines that open a Structure-of-Arrays allocation.
pub open spec fn soa_head(name: Seq<char>, n: nat, with_var: bool) -> Seq<char> {
    if with_var {
        line("# SoA allocation for variable '"@ + name + "'"@) + line(
            "# Allocating "@ + decimal(n) + " separate field arrays"@,
        )
    } else {
        line("# Structure of Arrays allocation for "@ + name) + line(
            "# Allocating "@ + decimal(n) + " separate arrays for each field"@,
        )
    }
}

/// The store of the array size into the slot at `off`.
pub open spec fn soa_size_store(off: i32, name: Seq<char>, size: Seq<char>) -> Seq<char> {
    let size_var = name + "_size"@;
    if size == "rsi"@ {
        line("mov "@ + slot(off) + ", rsi  # Store "@ + size_var)
    } else {
        line("mov rax, "@ + size + "        # Load array size"@) + line(
            "mov "@ + slot(off) + ", rax  # Store "@ + size_var,
        )
    }
}

/// The comment that closes a Structure-of-Arrays allocation.
pub open spec fn soa_tail(name: Seq<char>, with_var: bool) -> Seq<char> {
    line(
        if with_var {
            "# SoA allocation complete for variable '"@ + name + "'"@
        } else {
            "# SoA allocation complete for "@ + name
        },
    ) + "\n"@
}

/// The code that allocates the arrays of fields `i..` by `mmap`.
pub open spec fn soa_fields(
    name: Seq<char>,
    names: Seq<Seq<char>>,
    types: Seq<Seq<char>>,
    size: Seq<char>,
    with_var: bool,
    out: Seq<char>,
    offset: i32,
    vars: Map<Seq<char>, i32>,
    i: int,
) -> Alloc
    decreases names.len() - i,
{
    if i < 0 || i >= names.len() {
        Alloc { out, offset, vars, result: Ok(()) }
    } else {
        let body = soa_field_body(names[i], types[i], size, with_var);
        if offset > i32::MAX - 8 {
            Alloc { out: out + body, offset, vars, result: Err(offset_overflow()) }
        } else {
            let off = (offset + 8) as i32;
            let ptr = name + "_"@ + names[i] + "_ptr"@;
            soa_fields(
                name,
                names,
                types,
                size,
                with_var,
                out + body + line("mov "@ + slot(off) + ", rax  # Store "@ + ptr),
                off,
                vars.insert(ptr, off),
                i + 1,
            )
        }
    }
}

/// The Structure-of-Arrays allocation of `name` with `size` elements (a numeral, or `rsi`).
pub open spec fn soa_allocation(
    name: Seq<char>,
    info: ArrayInfo,
    size: Seq<char>,
    with_var: bool,
    out: Seq<char>,
    offset: i32,
    vars: Map<Seq<char>, i32>,
) -> Alloc {
    let head = soa_head(name, info.field_names@.len(), with_var);
    if offset > i32::MAX - 8 {
        Alloc { out: out + head, offset, vars, result: Err(offset_overflow()) }
    } else {
        let off = (offset + 8) as i32;
        let fields = soa_fields(
            name,
            names_of(info),
            types_of(info),
            size,
            with_var,
            out + head + soa_size_store(off, name, size),
            off,
            vars.insert(name + "_size"@, off),
            0,
        );
        match fields.result {
            Err(_) => fields,
            Ok(_) => Alloc {
                out: fields.out + soa_tail(name, with_var),
                offset: fields.offset,
                vars: fields.vars,
                result: Ok(()),
            },
        }
    }
}

/// `Type::method`.
pub open spec fn constructor_name(c: ProcTermConstructorCall) -> Seq<char> {
    c.array_type@ + "::"@ + c.method@
}

/// The size operand of an array constructor: its code, and the operand (a numeral or
/// `rsi`).
pub open spec fn size_operand(c: ProcTermConstructorCall, vars: Map<Seq<char>, i32>) -> (Seq<char>, Result<
    Seq<char>,
    SCompileError,
>) {
    if c.args@.len() == 0 {
        (Seq::empty(), Err(err("Missing size argument for array constructor"@)))
    } else {
        match c.args@[0] {
            ProcTerm::Number(n) => (Seq::empty(), Ok(n.number@)),
            ProcTerm::Variable(v) => if vars.contains_key(v.variable@) {
                (mov("rsi"@, slot(vars[v.variable@])), Ok("rsi"@))
            } else {
                (Seq::empty(), Err(err("Unknown variable in array size: "@ + v.variable@)))
            },
            _ => (Seq::empty(), Err(err("Unsupported size argument type: "@ + proc_term_kind(c.args@[0])))),
        }
    }
}

/// An array constructor call; `var` is the variable it initializes, if any.
pub open spec fn constructor_code(
    arrays: Map<Seq<char>, ArrayInfo>,
    c: ProcTermConstructorCall,
    var: Option<Seq<char>>,
    out: Seq<char>,
    offset: i32,
    vars: Map<Seq<char>, i32>,
) -> Alloc {
    if contains_text(constructor_name(c), "::new_with_size"@) {
        if arrays.contains_key(c.array_type@) {
            let size = size_operand(c, vars);
            match size.1 {
                Err(er) => Alloc { out: out + size.0, offset, vars, result: Err(er) },
                Ok(operand) => match var {
                    Some(name) => soa_allocation(
                        name,
                        arrays[c.array_type@],
                        operand,
                        true,
                        out + size.0,
                        offset,
                        vars,
                    ),
                    None => soa_allocation(
                        c.array_type@,
                        arrays[c.array_type@],
                        operand,
                        false,
                        out + size.0,
                        offset,
                        vars,
                    ),
                },
            }
        } else {
            Alloc { out, offset, vars, result: Err(err("Array type not found: "@ + c.array_type@)) }
        }
    } else {
        Alloc {
            out,
            offset,
            vars,
            result: Err(err("Constructor call not yet implemented: "@ + constructor_name(c))),
        }
    }
}

/// The registers of the first six arguments of a procedure call.
pub open spec fn call_register(i: int) -> Seq<char> {
    if i == 0 {
        "rdi"@
    } else if i == 1 {
        "rsi"@
    } else if i == 2 {
        "rdx"@
    } else if i == 3 {
        "rcx"@
    } else if i == 4 {
        "r8"@
    } else {
        "r9"@
    }
}

/// The code that passes the arguments `args[i..]` of a procedure call in registers.
pub open spec fn call_arguments(args: Seq<ProcTerm>, vars: Map<Seq<char>, i32>, i: int) -> (Seq<char>, Result<
    (),
    SCompileError,
>)
    decreases args.len() - i,
{
    if i < 0 || i >= args.len() {
        (Seq::empty(), Ok(()))
    } else if i >= 6 {
        (Seq::empty(), Err(err("More than 6 arguments not supported"@)))
    } else {
        let a = syscall_argument(args[i], call_register(i), vars);
        match a.1 {
            Err(er) => (a.0, Err(er)),
            Ok(_) => {
                let rest = call_arguments(args, vars, i + 1);
                (a.0 + rest.0, rest.1)
            },
        }
    }
}

/// The instruction of an `f32` builtin on `xmm0` and `xmm1`.
pub open spec fn f32_instruction(b: Seq<char>) -> Option<Seq<char>> {
    if b == "f32_add"@ {
        Some("addss xmm0, xmm1"@)
    } else if b == "f32_sub"@ {
        Some("subss xmm0, xmm1"@)
    } else if b == "f32_mul"@ {
        Some("mulss xmm0, xmm1"@)
    } else if b == "f32_div"@ {
        Some("divss xmm0, xmm1"@)
    } else {
        None
    }
}

/// The code after the operands of a `u64` builtin with two operands.
pub open spec fn u64_tail(b: Seq<char>) -> Option<Seq<char>> {
    if b == "u64_add"@ {
        Some(line("add rax, rbx"@))
    } else if b == "u64_sub"@ {
        Some(line("sub rax, rbx"@))
    } else if b == "u64_mul"@ {
        Some(line("imul rax, rbx"@))
    } else if b == "u64_div"@ {
        Some(line("xor rdx, rdx"@) + line("div rbx"@))
    } else if b == "u64_mod"@ {
        Some(line("xor rdx, rdx"@) + line("div rbx"@) + line("mov rax, rdx"@))
    } else if b == "u64_eq"@ {
        Some(line("cmp rax, rbx"@) + line("sete al"@) + line("movzx rax, al"@))
    } else {
        None
    }
}

/// The labels of a conditional: the `else` label and the `end` label.
pub open spec fn if_labels(labels: LabelCounters, with_break: bool) -> (Seq<char>, Seq<char>, LabelCounters) {
    if with_break {
        let id = decimal(labels.break_if_labels as nat);
        (
            "if_break_else_"@ + id,
            "if_break_end_"@ + id,
            LabelCounters {
                if_labels: labels.if_labels,
                loop_labels: labels.loop_labels,
                break_if_labels: next_label(labels.break_if_labels),
            },
        )
    } else {
        let id = decimal(labels.if_labels as nat);
        (
            "if_else_"@ + id,
            "if_end_"@ + id,
            LabelCounters {
                if_labels: next_label(labels.if_labels),
                loop_labels: labels.loop_labels,
                break_if_labels: labels.break_if_labels,
            },
        )
    }
}

/// Loads an integer operand into `reg`; a dereference compiles its term with no builtins,
/// no arrays and no references.
pub open spec fn load_arg(vars: Map<Seq<char>, i32>, c: Code, arg: ProcTerm, reg: Seq<char>) -> COutcome
    decreases arg, 0nat,
{
    match arg {
        ProcTerm::Number(n) => c_ok(emit_c(c, mov(reg, number_text(n)))),
        ProcTerm::Variable(v) => if vars.contains_key(v.variable@) {
            c_ok(emit_c(c, mov(reg, slot(vars[v.variable@]))))
        } else {
            c_fail(c, err(unknown_variable(v.variable@)))
        },
        ProcTerm::Paren(p) => load_arg(vars, c, *p.proc_term, reg),
        ProcTerm::Dereference(d) => {
            let inner = term_c(
                bare_env(Map::empty()),
                vars,
                Map::empty(),
                XState { out: c.out, varr: Map::empty(), labels: c.labels },
                *d.term,
            );
            let back = Code { out: inner.state.out, labels: inner.state.labels };
            match inner.result {
                Err(er) => c_fail(back, er),
                Ok(_) => c_ok(emit_c(back, mov(reg, "qword ptr [rax]"@))),
            }
        },
        _ => c_fail(c, err("Unsupported argument type: "@ + proc_term_kind(arg))),
    }
}

/// Loads an `f32` operand into `reg`.
pub open spec fn load_f32_arg(arrays: Map<Seq<char>, ArrayInfo>, vars: Map<Seq<char>, i32>, x: XState, arg: ProcTerm, reg: Seq<char>) -> XOutcome
    decreases arg, 0nat,
{
    match arg {
        ProcTerm::Number(n) => if has_suffix(n.number@, "f32"@) {
            let bits: u32 = match n.suffix_float_bits {
                Some(b) => b,
                None => 0,
            };
            x_ok(emit_x(x, line("mov eax, "@ + hex8(bits)) + line("movd "@ + reg + ", eax"@)))
        } else {
            x_fail(x, err("Expected f32 number, got: "@ + n.number@))
        },
        ProcTerm::Variable(v) => if vars.contains_key(v.variable@) {
            x_ok(emit_x(x, line("movss "@ + reg + ", "@ + dslot(vars[v.variable@]))))
        } else {
            x_fail(x, err(unknown_variable(v.variable@)))
        },
        ProcTerm::Paren(p) => load_f32_arg(arrays, vars, x, *p.proc_term, reg),
        ProcTerm::Dereference(d) => {
            let inner = term_c(bare_env(arrays), vars, Map::empty(), x, *d.term);
            let back = XState { out: inner.state.out, varr: x.varr, labels: inner.state.labels };
            match inner.result {
                Err(er) => x_fail(back, er),
                Ok(_) => x_ok(emit_x(back, line("movss "@ + reg + ", dword ptr [rax]"@))),
            }
        },
        _ => x_fail(x, err("Unsupported f32 argument type: "@ + proc_term_kind(arg))),
    }
}

/// The code that follows `o`, when `o` succeeded.
pub open spec fn then_emit(o: XOutcome, tail: Seq<char>) -> XOutcome {
    match o.result {
        Err(_) => o,
        Ok(_) => x_ok(emit_x(o.state, tail)),
    }
}

/// The two integer operands of a builtin, in `rax` and `rbx`.
pub open spec fn u64_operands(vars: Map<Seq<char>, i32>, c: Code, a: ProcTermApply, name: Seq<char>) -> COutcome
    decreases a, 0nat,
{
    if a.args@.len() != 2 {
        c_fail(c, err(arity_message(name, "2 arguments"@, a.args@.len())))
    } else {
        let first = load_arg(vars, c, a.args@[0], "rax"@);
        match first.result {
            Err(_) => first,
            Ok(_) => load_arg(vars, first.code, a.args@[1], "rbx"@),
        }
    }
}

/// The two `f32` operands of a builtin, in `xmm0` and `xmm1`.
pub open spec fn f32_operands(
    arrays: Map<Seq<char>, ArrayInfo>,
    vars: Map<Seq<char>, i32>,
    x: XState,
    a: ProcTermApply,
    name: Seq<char>,
) -> XOutcome
    decreases a, 0nat,
{
    if a.args@.len() != 2 {
        x_fail(x, err(arity_message(name, "2 arguments"@, a.args@.len())))
    } else {
        let first = load_f32_arg(arrays, vars, x, a.args@[0], "xmm0"@);
        match first.result {
            Err(_) => first,
            Ok(_) => load_f32_arg(arrays, vars, first.state, a.args@[1], "xmm1"@),
        }
    }
}

/// The one operand of a builtin, in `rax` as an integer or in `xmm0` as a float.
pub open spec fn one_operand(
    arrays: Map<Seq<char>, ArrayInfo>,
    vars: Map<Seq<char>, i32>,
    x: XState,
    a: ProcTermApply,
    name: Seq<char>,
    float: bool,
) -> XOutcome
    decreases a, 0nat,
{
    if a.args@.len() != 1 {
        x_fail(x, err(arity_message(name, "1 argument"@, a.args@.len())))
    } else if float {
        load_f32_arg(arrays, vars, x, a.args@[0], "xmm0"@)
    } else {
        lift_x(x, load_arg(vars, code_of(x), a.args@[0], "rax"@))
    }
}

pub open spec fn f32_result_tail() -> Seq<char> {
    line("movd eax, xmm0"@) + line("mov rax, rax"@)
}

/// The `f32` builtin on a literal: the bits of its value into `rax`.
pub open spec fn f32_literal(a: ProcTermApply) -> (Seq<char>, Result<(), SCompileError>) {
    if a.args@.len() != 1 {
        (Seq::empty(), Err(err(arity_message("f32"@, "1 argument"@, a.args@.len()))))
    } else {
        match a.args@[0] {
            ProcTerm::Number(n) => {
                let bits: u32 = match n.float_bits {
                    Some(v) => v,
                    None => 0,
                };
                (line("mov eax, "@ + hex8(bits)) + line("mov rax, rax"@), Ok(()))
            },
            _ => (Seq::empty(), Err(err("f32 expects numeric literal, got: "@ + proc_term_kind(a.args@[0])))),
        }
    }
}

/// A call: of a builtin, or of a procedure of the program.
pub open spec fn apply_c(e: Env, vars: Map<Seq<char>, i32>, x: XState, a: ProcTermApply) -> XOutcome
    decreases a, 1nat,
{
    match *a.f {
        ProcTerm::Variable(v) => if e.builtins.contains_key(v.variable@) {
            let b = e.builtins[v.variable@]@;
            if b == "syscall"@ {
                let code = syscall_code(a.args@, vars);
                XOutcome { state: emit_x(x, code.0), result: code.1 }
            } else if u64_tail(b) is Some {
                lift_x(x, c_then_emit(u64_operands(vars, code_of(x), a, b), u64_tail(b)->0))
            } else if f32_instruction(b) is Some {
                then_emit(f32_operands(e.arrays, vars, x, a, b), line(f32_instruction(b)->0) + f32_result_tail())
            } else if b == "f32_to_u64"@ {
                then_emit(one_operand(e.arrays, vars, x, a, b, true), line("cvttss2si rax, xmm0"@))
            } else if b == "u64_to_f32"@ {
                then_emit(one_operand(e.arrays, vars, x, a, b, false), line("cvtsi2ss xmm0, rax"@) + f32_result_tail())
            } else if b == "u64"@ {
                one_operand(e.arrays, vars, x, a, b, false)
            } else if b == "f32"@ {
                let c = f32_literal(a);
                XOutcome { state: emit_x(x, c.0), result: c.1 }
            } else {
                x_fail(x, err("Apply"@))
            }
        } else {
            let args = call_arguments(a.args@, vars, 0);
            match args.1 {
                Err(er) => x_fail(emit_x(x, args.0), er),
                Ok(_) => x_ok(emit_x(x, args.0 + line("call "@ + v.variable@))),
            }
        },
        _ => x_fail(x, err("Apply"@)),
    }
}

/// A procedure term: its value ends up in `rax`.
pub open spec fn term_c(e: Env, vars: Map<Seq<char>, i32>, refs: Map<Seq<char>, String>, x: XState, t: ProcTerm) -> XOutcome
    decreases t, 0nat,
{
    match t {
        ProcTerm::Apply(a) => apply_c(e, vars, x, a),
        ProcTerm::Variable(v) => if vars.contains_key(v.variable@) {
            x_ok(emit_x(x, mov("rax"@, slot(vars[v.variable@]))))
        } else {
            x_fail(x, err(unknown_variable(v.variable@)))
        },
        ProcTerm::Number(n) => x_ok(emit_x(x, mov("rax"@, number_text(n)))),
        ProcTerm::FieldAccess(fa) => {
            let code = field_access_code(e.arrays, vars, x.varr, fa);
            XOutcome { state: emit_x(x, code.0), result: code.1 }
        },
        ProcTerm::ConstructorCall(c) => {
            let alloc = constructor_code(e.arrays, c, None, x.out, 0, Map::empty());
            XOutcome { state: XState { out: alloc.out, varr: x.varr, labels: x.labels }, result: alloc.result }
        },
        ProcTerm::Dereference(d) => deref_c(e, vars, refs, x, d),
        ProcTerm::If(i) => if_c(e, vars, refs, x, i, None),
        ProcTerm::Paren(p) => term_c(e, vars, refs, x, *p.proc_term),
        ProcTerm::Unit(_) => x_fail(x, err(proc_term_kind(t))),
    }
}

/// `term.*`: the term's value is an address, and the load through it goes by the type of
/// the array field it points into.
pub open spec fn deref_c(e: Env, vars: Map<Seq<char>, i32>, refs: Map<Seq<char>, String>, x: XState, d: ProcTermDereference) -> XOutcome
    decreases d, 0nat,
{
    let inner = term_c(e, vars, refs, x, *d.term);
    match inner.result {
        Err(_) => inner,
        Ok(_) => x_ok(emit_x(inner.state, deref_load(e.arrays, inner.state.varr, *d.term))),
    }
}

/// A conditional; within a loop, `brk` is the label that `#break` jumps to.
pub open spec fn if_c(
    e: Env,
    vars: Map<Seq<char>, i32>,
    refs: Map<Seq<char>, String>,
    x: XState,
    i: ProcTermIf,
    brk: Option<Seq<char>>,
) -> XOutcome
    decreases i, 0nat,
{
    let labels = if_labels(x.labels, brk is Some);
    let else_label = labels.0;
    let end_label = labels.1;
    let local = Frame {
        vars,
        refs,
        offset: 0,
        x: XState { out: x.out, varr: x.varr, labels: labels.2 },
    };
    let cond = stmts_c(e, local, *i.condition, brk);
    match cond.result {
        Err(er) => x_fail(cond.frame.x, er),
        Ok(_) => {
            let after_cond = emit_x(
                cond.frame.x,
                line("cmp rax, 0"@) + line(
                    "je "@ + if i.else_clause is Some {
                        else_label
                    } else {
                        end_label
                    },
                ),
            );
            let body_frame = Frame { vars: cond.frame.vars, refs: cond.frame.refs, offset: 0, x: after_cond };
            let then_part = stmts_c(e, body_frame, *i.then_body, brk);
            match then_part.result {
                Err(er) => x_fail(then_part.frame.x, er),
                Ok(_) => match i.else_clause {
                    None => x_ok(emit_x(then_part.frame.x, end_label + ":\n"@)),
                    Some(el) => {
                        let before_else = emit_x(
                            then_part.frame.x,
                            line("jmp "@ + end_label) + else_label + ":\n"@,
                        );
                        let else_part = stmts_c(
                            e,
                            Frame { vars: cond.frame.vars, refs: cond.frame.refs, offset: 0, x: before_else },
                            *el.else_body,
                            brk,
                        );
                        match else_part.result {
                            Err(er) => x_fail(else_part.frame.x, er),
                            Ok(_) => x_ok(emit_x(else_part.frame.x, end_label + ":\n"@)),
                        }
                    },
                },
            }
        },
    }
}

/// A sequence of statements.
pub open spec fn stmts_c(e: Env, f: Frame, ss: Statements, brk: Option<Seq<char>>) -> SOutcome
    decreases ss, 0nat,
{
    match ss {
        Statements::Then(th) => {
            let head = stmt_c(e, f, *th.head, brk);
            match head.result {
                Err(_) => head,
                Ok(_) => stmts_c(e, head.frame, *th.tail, brk),
            }
        },
        Statements::Statement(s) => stmt_c(e, f, *s, brk),
        Statements::Nil => s_ok(f),
    }
}

/// Runs an expression compilation inside a statement: the tables of the statement stay.
pub open spec fn lift(f: Frame, o: XOutcome) -> SOutcome {
    SOutcome { frame: with_x(f, o.state), result: o.result }
}

/// A statement.
pub open spec fn stmt_c(e: Env, f: Frame, s: Statement, brk: Option<Seq<char>>) -> SOutcome
    decreases s, if brk is Some { 1nat } else { 0nat },
{
    match brk {
        Some(l) => match s {
            Statement::Break(_) => s_ok(with_x(f, emit_x(f.x, line("jmp "@ + l)))),
            Statement::Expr(ProcTerm::If(i)) => lift(f, if_c(e, f.vars, f.refs, f.x, i, brk)),
            _ => stmt_c(e, f, s, None),
        },
        None => match s {
            Statement::Let(l) => let_c(e, f, l),
            Statement::LetMut(l) => let_mut_c(e, f, l),
            Statement::Assign(a) => assign_c(e, f, a),
            Statement::FieldAssign(fa) => field_assign_c(e, f, fa),
            Statement::Expr(t) => lift(f, term_c(e, f.vars, f.refs, f.x, t)),
            Statement::Return(r) => lift(f, term_c(e, f.vars, f.refs, f.x, *r.value)),
            Statement::Loop(l) => loop_c(e, f, l),
            Statement::Break(_) => s_fail(f, err("Break statement outside of loop context"@)),
            Statement::CallPtx(_) => s_fail(f, err("CallPtx"@)),
        },
    }
}

/// `#let x = value;` in the slot after the current stack offset.
pub open spec fn let_c(e: Env, f: Frame, l: StatementLet) -> SOutcome
    decreases l, 0nat,
{
    if f.offset > i32::MAX - 8 {
        s_fail(f, offset_overflow())
    } else {
        let off = (f.offset + 8) as i32;
        let f1 = Frame { vars: f.vars, refs: f.refs, offset: off, x: f.x };
        let name = l.variable@;
        let generic = {
            let r = term_c(e, f1.vars, f1.refs, f1.x, *l.value);
            match r.result {
                Err(er) => s_fail(with_x(f1, r.state), er),
                Ok(_) => s_ok(
                    Frame {
                        vars: f1.vars.insert(name, off),
                        refs: f1.refs,
                        offset: off,
                        x: emit_x(r.state, mov(slot(off), "rax"@)),
                    },
                ),
            }
        };
        match *l.value {
            ProcTerm::ConstructorCall(c) => {
                let alloc = constructor_code(e.arrays, c, Some(name), f1.x.out, off, f1.vars);
                let varr = if contains_text(constructor_name(c), "::new_with_size"@) && e.arrays.contains_key(
                    c.array_type@,
                ) {
                    f1.x.varr.insert(name, c.array_type)
                } else {
                    f1.x.varr
                };
                SOutcome {
                    frame: Frame {
                        vars: alloc.vars,
                        refs: f1.refs,
                        offset: alloc.offset,
                        x: XState { out: alloc.out, varr: varr, labels: f1.x.labels },
                    },
                    result: alloc.result,
                }
            },
            ProcTerm::Apply(a) => match *a.f {
                ProcTerm::Variable(v) => if e.builtins.contains_key(v.variable@) && f32_instruction(
                    e.builtins[v.variable@]@,
                ) is Some {
                    let r = f32_let(e.arrays, f1.vars, f1.x, a, e.builtins[v.variable@]@, off);
                    match r.result {
                        Err(er) => s_fail(with_x(f1, r.state), er),
                        Ok(_) => s_ok(Frame { vars: f1.vars.insert(name, off), refs: f1.refs, offset: off, x: r.state }),
                    }
                } else if e.builtins.contains_key(v.variable@) && e.builtins[v.variable@]@ == "u64_mod"@ {
                    let r = lift_x(f1.x, u64_mod_let(f1.vars, code_of(f1.x), a, off));
                    match r.result {
                        Err(er) => s_fail(with_x(f1, r.state), er),
                        Ok(_) => s_ok(Frame { vars: f1.vars.insert(name, off), refs: f1.refs, offset: off, x: r.state }),
                    }
                } else {
                    generic
                },
                _ => generic,
            },
            ProcTerm::Number(n) => s_ok(
                Frame {
                    vars: f1.vars.insert(name, off),
                    refs: f1.refs,
                    offset: off,
                    x: emit_x(f1.x, mov(slot(off), number_text(n))),
                },
            ),
            _ => generic,
        }
    }
}

/// An `f32` operation whose result a `#let` stores at `offset`.
pub open spec fn f32_let(
    arrays: Map<Seq<char>, ArrayInfo>,
    vars: Map<Seq<char>, i32>,
    x: XState,
    a: ProcTermApply,
    b: Seq<char>,
    offset: i32,
) -> XOutcome
    decreases a, 1nat,
{
    let ops = f32_operands(arrays, vars, x, a, b);
    match ops.result {
        Err(_) => ops,
        Ok(_) => match f32_instruction(b) {
            None => x_fail(ops.state, err("Unknown f32 operation: "@ + b)),
            Some(ins) => x_ok(emit_x(ops.state, line(ins) + line("movss "@ + dslot(offset) + ", xmm0"@))),
        },
    }
}

/// A remainder whose result a `#let` stores at `offset`.
pub open spec fn u64_mod_let(vars: Map<Seq<char>, i32>, c: Code, a: ProcTermApply, offset: i32) -> COutcome
    decreases a, 1nat,
{
    c_then_emit(u64_operands(vars, c, a, "u64_mod"@), line("xor rdx, rdx"@) + line("div rbx"@) + mov(slot(offset), "rdx"@))
}

/// `#let mut x @ r = value;`: a slot for the value and a slot for its address.
pub open spec fn let_mut_c(e: Env, f: Frame, l: StatementLetMut) -> SOutcome
    decreases l, 0nat,
{
    if f.offset > i32::MAX - 8 {
        s_fail(f, offset_overflow())
    } else {
        let value_offset = (f.offset + 8) as i32;
        let f1 = Frame { vars: f.vars, refs: f.refs, offset: value_offset, x: f.x };
        let r = term_c(e, f1.vars, f1.refs, f1.x, *l.value);
        match r.result {
            Err(er) => s_fail(with_x(f1, r.state), er),
            Ok(_) => {
                let x2 = emit_x(r.state, mov(slot(value_offset), "rax"@));
                if value_offset > i32::MAX - 8 {
                    s_fail(with_x(f1, x2), offset_overflow())
                } else {
                    let ref_offset = (value_offset + 8) as i32;
                    s_ok(
                        Frame {
                            vars: f1.vars.insert(l.variable@, value_offset).insert(l.reference_variable@, ref_offset),
                            refs: f1.refs.insert(l.reference_variable@, l.variable),
                            offset: ref_offset,
                            x: emit_x(
                                x2,
                                line("lea rax, "@ + slot(value_offset)) + mov(slot(ref_offset), "rax"@),
                            ),
                        },
                    )
                }
            },
        }
    }
}

/// `x <- value;` through the address that `x` holds.
pub open spec fn assign_c(e: Env, f: Frame, a: StatementAssign) -> SOutcome
    decreases a, 0nat,
{
    if f.vars.contains_key(a.variable@) {
        let r = term_c(e, f.vars, f.refs, f.x, *a.value);
        match r.result {
            Err(er) => s_fail(with_x(f, r.state), er),
            Ok(_) => s_ok(
                with_x(
                    f,
                    emit_x(r.state, mov("rbx"@, slot(f.vars[a.variable@])) + line("mov qword ptr [rbx], rax"@)),
                ),
            ),
        }
    } else {
        s_fail(f, err("Cannot assign to non-mutable variable: "@ + a.variable@))
    }
}

/// `object.field index <- value;`
pub open spec fn field_assign_c(e: Env, f: Frame, fa: StatementFieldAssign) -> SOutcome
    decreases fa, 0nat,
{
    let addr = field_access_code(e.arrays, f.vars, f.x.varr, fa.field_access);
    let x1 = emit_x(f.x, addr.0);
    match addr.1 {
        Err(er) => s_fail(with_x(f, x1), er),
        Ok(_) => {
            let r = term_c(e, f.vars, f.refs, emit_x(x1, line("mov rbx, rax"@)), *fa.value);
            match r.result {
                Err(er) => s_fail(with_x(f, r.state), er),
                Ok(_) => s_ok(with_x(f, emit_x(r.state, line("mov qword ptr [rbx], rax"@)))),
            }
        },
    }
}

/// `#loop { body }` between a start label and an end label that `#break` jumps to.
pub open spec fn loop_c(e: Env, f: Frame, l: StatementLoop) -> SOutcome
    decreases l, 0nat,
{
    let id = decimal(f.x.labels.loop_labels as nat);
    let start = "loop_start_"@ + id;
    let end = "loop_end_"@ + id;
    let labels = LabelCounters {
        if_labels: f.x.labels.if_labels,
        loop_labels: next_label(f.x.labels.loop_labels),
        break_if_labels: f.x.labels.break_if_labels,
    };
    let f1 = with_x(f, XState { out: f.x.out + start + ":\n"@, varr: f.x.varr, labels });
    let body = stmts_c(e, f1, *l.body, Some(end));
    match body.result {
        Err(_) => body,
        Ok(_) => s_ok(with_x(body.frame, emit_x(body.frame.x, line("jmp "@ + start) + end + ":\n"@))),
    }
}

/// A `#let` of a number literal takes the next stack slot, binds the variable to it and
/// stores the number there directly.
pub proof fn lemma_let_number_layout(e: Env, f: Frame, l: StatementLet, n: ProcTermNumber)
    requires
        *l.value == ProcTerm::Number(n),
        f.offset <= i32::MAX - 8,
    ensures
        let_c(e, f, l).result is Ok,
        let_c(e, f, l).frame.offset == f.offset + 8,
        let_c(e, f, l).frame.vars == f.vars.insert(l.variable@, (f.offset + 8) as i32),
        let_c(e, f, l).frame.x.out == f.x.out + mov(slot((f.offset + 8) as i32), number_text(n)),
{
}

/// A `#let mut` takes two slots after the current offset, the value in the first and its
/// address in the second, binding the reference to the variable.
pub proof fn lemma_let_mut_layout(e: Env, f: Frame, l: StatementLetMut)
    requires
        f.offset <= i32::MAX - 16,
        term_c(e, f.vars, f.refs, f.x, *l.value).result is Ok,
    ensures
        let_mut_c(e, f, l).result is Ok,
        let_mut_c(e, f, l).frame.offset == f.offset + 16,
        let_mut_c(e, f, l).frame.vars == f.vars.insert(l.variable@, (f.offset + 8) as i32).insert(
            l.reference_variable@,
            (f.offset + 16) as i32,
        ),
        let_mut_c(e, f, l).frame.refs == f.refs.insert(l.reference_variable@, l.variable),
{
}

proof fn lemma_apply_u64(e: Env, vars: Map<Seq<char>, i32>, x: XState, a: ProcTermApply, name: Seq<char>)
    requires
        *a.f matches ProcTerm::Variable(v) && v.variable@ == name,
        e.builtins.contains_key(name),
        e.builtins[name]@ != "syscall"@,
        u64_tail(e.builtins[name]@) is Some,
        apply_c(e, vars, x, a).result is Ok,
    ensures
        u64_operands(vars, code_of(x), a, e.builtins[name]@).result is Ok,
        apply_c(e, vars, x, a).state.out == u64_operands(vars, code_of(x), a, e.builtins[name]@).code.out + u64_tail(
            e.builtins[name]@,
        )->0,
{
}

proof fn lemma_u64_tails()
    ensures
        u64_tail("u64_eq"@) == Some(line("cmp rax, rbx"@) + line("sete al"@) + line("movzx rax, al"@)),
        u64_tail("u64_add"@) == Some(line("add rax, rbx"@)),
        u64_tail("u64_sub"@) == Some(line("sub rax, rbx"@)),
        u64_tail("u64_mul"@) == Some(line("imul rax, rbx"@)),
        u64_tail("u64_div"@) == Some(line("xor rdx, rdx"@) + line("div rbx"@)),
        u64_tail("u64_mod"@) == Some(line("xor rdx, rdx"@) + line("div rbx"@) + line("mov rax, rdx"@)),
        "u64_eq"@ != "syscall"@,
        "u64_add"@ != "syscall"@,
        "u64_sub"@ != "syscall"@,
        "u64_mul"@ != "syscall"@,
        "u64_div"@ != "syscall"@,
        "u64_mod"@ != "syscall"@,
{
    reveal_strlit("syscall");
    reveal_strlit("u64_eq");
    reveal_strlit("u64_add");
    reveal_strlit("u64_sub");
    reveal_strlit("u64_mul");
    reveal_strlit("u64_div");
    reveal_strlit("u64_mod");
    assert("u64_add"@[0] != "syscall"@[0]);
    assert("u64_sub"@[0] != "syscall"@[0]);
    assert("u64_mul"@[0] != "syscall"@[0]);
    assert("u64_div"@[0] != "syscall"@[0]);
    assert("u64_mod"@[0] != "syscall"@[0]);
    assert("u64_sub"@[4] != "u64_add"@[4]);
    assert("u64_div"@[4] != "u64_add"@[4]);
    assert("u64_div"@[4] != "u64_sub"@[4]);
    assert("u64_div"@[4] != "u64_mul"@[4]);
    assert("u64_mod"@[4] != "u64_add"@[4]);
    assert("u64_mod"@[4] != "u64_sub"@[4]);
    assert("u64_mod"@[5] != "u64_mul"@[5]);
    assert("u64_mod"@[4] != "u64_div"@[4]);
    assert("u64_mul"@[4] != "u64_add"@[4]);
    assert("u64_mul"@[4] != "u64_sub"@[4]);
    assert("u64_eq"@.len() != "u64_add"@.len());
    assert("u64_eq"@.len() != "u64_sub"@.len());
    assert("u64_eq"@.len() != "u64_mul"@.len());
    assert("u64_eq"@.len() != "u64_div"@.len());
    assert("u64_eq"@.len() != "u64_mod"@.len());
}

/// `u64_eq` compares its operands in `rax` and `rbx` and leaves 1 in `rax` when they are
/// equal and 0 otherwise: `cmp`, `sete` (set on equal), then the byte widened.
pub proof fn lemma_u64_eq_code(e: Env, vars: Map<Seq<char>, i32>, x: XState, a: ProcTermApply, name: Seq<char>)
    requires
        *a.f matches ProcTerm::Variable(v) && v.variable@ == name,
        e.builtins.contains_key(name),
        e.builtins[name]@ == "u64_eq"@,
        apply_c(e, vars, x, a).result is Ok,
    ensures
        u64_operands(vars, code_of(x), a, e.builtins[name]@).result is Ok,
        apply_c(e, vars, x, a).state.out == u64_operands(vars, code_of(x), a, e.builtins[name]@).code.out + (line("cmp rax, rbx"@) + line("sete al"@) + line("movzx rax, al"@)),
{
    lemma_u64_tails();
    lemma_apply_u64(e, vars, x, a, name);
}

/// `u64_add` leaves the sum of its operands in `rax`.
pub proof fn lemma_u64_add_code(e: Env, vars: Map<Seq<char>, i32>, x: XState, a: ProcTermApply, name: Seq<char>)
    requires
        *a.f matches ProcTerm::Variable(v) && v.variable@ == name,
        e.builtins.contains_key(name),
        e.builtins[name]@ == "u64_add"@,
        apply_c(e, vars, x, a).result is Ok,
    ensures
        u64_operands(vars, code_of(x), a, e.builtins[name]@).result is Ok,
        apply_c(e, vars, x, a).state.out == u64_operands(vars, code_of(x), a, e.builtins[name]@).code.out + line("add rax, rbx"@),
{
    lemma_u64_tails();
    lemma_apply_u64(e, vars, x, a, name);
}

/// `u64_sub` leaves the first operand minus the second in `rax`.
pub proof fn lemma_u64_sub_code(e: Env, vars: Map<Seq<char>, i32>, x: XState, a: ProcTermApply, name: Seq<char>)
    requires
        *a.f matches ProcTerm::Variable(v) && v.variable@ == name,
        e.builtins.contains_key(name),
        e.builtins[name]@ == "u64_sub"@,
        apply_c(e, vars, x, a).result is Ok,
    ensures
        u64_operands(vars, code_of(x), a, e.builtins[name]@).result is Ok,
        apply_c(e, vars, x, a).state.out == u64_operands(vars, code_of(x), a, e.builtins[name]@).code.out + line("sub rax, rbx"@),
{
    lemma_u64_tails();
    lemma_apply_u64(e, vars, x, a, name);
}

/// `u64_mul` leaves the product of its operands in `rax`.
pub proof fn lemma_u64_mul_code(e: Env, vars: Map<Seq<char>, i32>, x: XState, a: ProcTermApply, name: Seq<char>)
    requires
        *a.f matches ProcTerm::Variable(v) && v.variable@ == name,
        e.builtins.contains_key(name),
        e.builtins[name]@ == "u64_mul"@,
        apply_c(e, vars, x, a).result is Ok,
    ensures
        u64_operands(vars, code_of(x), a, e.builtins[name]@).result is Ok,
        apply_c(e, vars, x, a).state.out == u64_operands(vars, code_of(x), a, e.builtins[name]@).code.out + line("imul rax, rbx"@),
{
    lemma_u64_tails();
    lemma_apply_u64(e, vars, x, a, name);
}

/// `u64_div` clears the high half and divides, leaving the quotient in `rax`.
pub proof fn lemma_u64_div_code(e: Env, vars: Map<Seq<char>, i32>, x: XState, a: ProcTermApply, name: Seq<char>)
    requires
        *a.f matches ProcTerm::Variable(v) && v.variable@ == name,
        e.builtins.contains_key(name),
        e.builtins[name]@ == "u64_div"@,
        apply_c(e, vars, x, a).result is Ok,
    ensures
        u64_operands(vars, code_of(x), a, e.builtins[name]@).result is Ok,
        apply_c(e, vars, x, a).state.out == u64_operands(vars, code_of(x), a, e.builtins[name]@).code.out + (line("xor rdx, rdx"@) + line("div rbx"@)),
{
    lemma_u64_tails();
    lemma_apply_u64(e, vars, x, a, name);
}

/// `u64_mod` divides and moves the remainder, which `div` leaves in `rdx`, to `rax`.
pub proof fn lemma_u64_mod_code(e: Env, vars: Map<Seq<char>, i32>, x: XState, a: ProcTermApply, name: Seq<char>)
    requires
        *a.f matches ProcTerm::Variable(v) && v.variable@ == name,
        e.builtins.contains_key(name),
        e.builtins[name]@ == "u64_mod"@,
        apply_c(e, vars, x, a).result is Ok,
    ensures
        u64_operands(vars, code_of(x), a, e.builtins[name]@).result is Ok,
        apply_c(e, vars, x, a).state.out == u64_operands(vars, code_of(x), a, e.builtins[name]@).code.out + (line("xor rdx, rdx"@) + line("div rbx"@) + line("mov rax, rdx"@)),
{
    lemma_u64_tails();
    lemma_apply_u64(e, vars, x, a, name);
}

proof fn lemma_f32_table()
    ensures
        f32_instruction("f32_add"@) == Some("addss xmm0, xmm1"@),
        f32_instruction("f32_sub"@) == Some("subss xmm0, xmm1"@),
        f32_instruction("f32_mul"@) == Some("mulss xmm0, xmm1"@),
        f32_instruction("f32_div"@) == Some("divss xmm0, xmm1"@),
        u64_tail("f32_add"@) is None,
        u64_tail("f32_sub"@) is None,
        u64_tail("f32_mul"@) is None,
        u64_tail("f32_div"@) is None,
        "f32_add"@ != "syscall"@,
        "f32_sub"@ != "syscall"@,
        "f32_mul"@ != "syscall"@,
        "f32_div"@ != "syscall"@,
{
    reveal_strlit("syscall");
    reveal_strlit("f32_add");
    reveal_strlit("f32_sub");
    reveal_strlit("f32_mul");
    reveal_strlit("f32_div");
    reveal_strlit("u64_add");
    reveal_strlit("u64_sub");
    reveal_strlit("u64_mul");
    reveal_strlit("u64_div");
    reveal_strlit("u64_mod");
    reveal_strlit("u64_eq");
    assert("f32_sub"@[4] != "f32_add"@[4]);
    assert("f32_mul"@[4] != "f32_add"@[4]);
    assert("f32_mul"@[4] != "f32_sub"@[4]);
    assert("f32_div"@[4] != "f32_add"@[4]);
    assert("f32_div"@[4] != "f32_sub"@[4]);
    assert("f32_div"@[4] != "f32_mul"@[4]);
    assert("f32_add"@[0] != "u64_add"@[0]);
    assert("f32_add"@[0] != "u64_sub"@[0]);
    assert("f32_add"@[0] != "u64_mul"@[0]);
    assert("f32_add"@[0] != "u64_div"@[0]);
    assert("f32_add"@[0] != "u64_mod"@[0]);
    assert("f32_add"@.len() != "u64_eq"@.len());
    assert("f32_sub"@[0] != "u64_add"@[0]);
    assert("f32_sub"@[0] != "u64_sub"@[0]);
    assert("f32_sub"@[0] != "u64_mul"@[0]);
    assert("f32_sub"@[0] != "u64_div"@[0]);
    assert("f32_sub"@[0] != "u64_mod"@[0]);
    assert("f32_sub"@.len() != "u64_eq"@.len());
    assert("f32_mul"@[0] != "u64_add"@[0]);
    assert("f32_mul"@[0] != "u64_sub"@[0]);
    assert("f32_mul"@[0] != "u64_mul"@[0]);
    assert("f32_mul"@[0] != "u64_div"@[0]);
    assert("f32_mul"@[0] != "u64_mod"@[0]);
    assert("f32_mul"@.len() != "u64_eq"@.len());
    assert("f32_div"@[0] != "u64_add"@[0]);
    assert("f32_div"@[0] != "u64_sub"@[0]);
    assert("f32_div"@[0] != "u64_mul"@[0]);
    assert("f32_div"@[0] != "u64_div"@[0]);
    assert("f32_div"@[0] != "u64_mod"@[0]);
    assert("f32_div"@.len() != "u64_eq"@.len());
    assert("f32_add"@[0] != "syscall"@[0]);
    assert("f32_sub"@[0] != "syscall"@[0]);
    assert("f32_mul"@[0] != "syscall"@[0]);
    assert("f32_div"@[0] != "syscall"@[0]);
}

proof fn lemma_apply_f32(e: Env, vars: Map<Seq<char>, i32>, x: XState, a: ProcTermApply, name: Seq<char>)
    requires
        *a.f matches ProcTerm::Variable(v) && v.variable@ == name,
        e.builtins.contains_key(name),
        e.builtins[name]@ != "syscall"@,
        u64_tail(e.builtins[name]@) is None,
        f32_instruction(e.builtins[name]@) is Some,
        apply_c(e, vars, x, a).result is Ok,
    ensures
        f32_operands(e.arrays, vars, x, a, e.builtins[name]@).result is Ok,
        apply_c(e, vars, x, a).state.out == f32_operands(e.arrays, vars, x, a, e.builtins[name]@).state.out + (line(
            f32_instruction(e.builtins[name]@)->0,
        ) + f32_result_tail()),
{
}

/// `f32_add` adds its operands in `xmm0` and `xmm1` (`addss`) and moves the bits of the
/// sum to `rax`.
pub proof fn lemma_f32_add_code(e: Env, vars: Map<Seq<char>, i32>, x: XState, a: ProcTermApply, name: Seq<char>)
    requires
        *a.f matches ProcTerm::Variable(v) && v.variable@ == name,
        e.builtins.contains_key(name),
        e.builtins[name]@ == "f32_add"@,
        apply_c(e, vars, x, a).result is Ok,
    ensures
        apply_c(e, vars, x, a).state.out == f32_operands(e.arrays, vars, x, a, e.builtins[name]@).state.out + (line(
            "addss xmm0, xmm1"@,
        ) + line("movd eax, xmm0"@) + line("mov rax, rax"@)),
{
    lemma_f32_table();
    lemma_apply_f32(e, vars, x, a, name);
    assert(line("addss xmm0, xmm1"@) + f32_result_tail() =~= line("addss xmm0, xmm1"@) + line("movd eax, xmm0"@) + line("mov rax, rax"@));
}

/// `f32_sub` subtracts its second operand from its first (`subss`) and moves the bits of
/// the difference to `rax`.
pub proof fn lemma_f32_sub_code(e: Env, vars: Map<Seq<char>, i32>, x: XState, a: ProcTermApply, name: Seq<char>)
    requires
        *a.f matches ProcTerm::Variable(v) && v.variable@ == name,
        e.builtins.contains_key(name),
        e.builtins[name]@ == "f32_sub"@,
        apply_c(e, vars, x, a).result is Ok,
    ensures
        apply_c(e, vars, x, a).state.out == f32_operands(e.arrays, vars, x, a, e.builtins[name]@).state.out + (line(
            "subss xmm0, xmm1"@,
        ) + line("movd eax, xmm0"@) + line("mov rax, rax"@)),
{
    lemma_f32_table();
    lemma_apply_f32(e, vars, x, a, name);
    assert(line("subss xmm0, xmm1"@) + f32_result_tail() =~= line("subss xmm0, xmm1"@) + line("movd eax, xmm0"@) + line("mov rax, rax"@));
}

/// `f32_mul` multiplies its operands (`mulss`) and moves the bits of the product to `rax`.
pub proof fn lemma_f32_mul_code(e: Env, vars: Map<Seq<char>, i32>, x: XState, a: ProcTermApply, name: Seq<char>)
    requires
        *a.f matches ProcTerm::Variable(v) && v.variable@ == name,
        e.builtins.contains_key(name),
        e.builtins[name]@ == "f32_mul"@,
        apply_c(e, vars, x, a).result is Ok,
    ensures
        apply_c(e, vars, x, a).state.out == f32_operands(e.arrays, vars, x, a, e.builtins[name]@).state.out + (line(
            "mulss xmm0, xmm1"@,
        ) + line("movd eax, xmm0"@) + line("mov rax, rax"@)),
{
    lemma_f32_table();
    lemma_apply_f32(e, vars, x, a, name);
    assert(line("mulss xmm0, xmm1"@) + f32_result_tail() =~= line("mulss xmm0, xmm1"@) + line("movd eax, xmm0"@) + line("mov rax, rax"@));
}

/// `f32_div` divides its first operand by its second (`divss`) and moves the bits of the
/// quotient to `rax`.
pub proof fn lemma_f32_div_code(e: Env, vars: Map<Seq<char>, i32>, x: XState, a: ProcTermApply, name: Seq<char>)
    requires
        *a.f matches ProcTerm::Variable(v) && v.variable@ == name,
        e.builtins.contains_key(name),
        e.builtins[name]@ == "f32_div"@,
        apply_c(e, vars, x, a).result is Ok,
    ensures
        apply_c(e, vars, x, a).state.out == f32_operands(e.arrays, vars, x, a, e.builtins[name]@).state.out + (line(
            "divss xmm0, xmm1"@,
        ) + line("movd eax, xmm0"@) + line("mov rax, rax"@)),
{
    lemma_f32_table();
    lemma_apply_f32(e, vars, x, a, name);
    assert(line("divss xmm0, xmm1"@) + f32_result_tail() =~= line("divss xmm0, xmm1"@) + line("movd eax, xmm0"@) + line("mov rax, rax"@));
}

} // verus!
