use vstd::prelude::*;
use vstd::string::*;

use crate::arrays::{index_offset, stub_field_offset, suffix_bits};
use crate::codegen::{
    arity_error, arity_message, emit, is_text, join2, line, result_view, slot, slot_text, unsupported,
    CompileError, SCompileError,
};
use crate::compile_text::{ends_with, has_suffix, hex8, hex8_text};
use crate::compiler::{
    append_out, asm_argument, asm_calls_procedure, asm_term_step, AsmModel, AssemblyCompiler,
};
use crate::lowering::{dslot, element_size, err, names_of, types_of};
use crate::statement::dslot_text;
use crate::syntax::{
    proc_term_kind, proc_term_kind_text, term_kind, term_kind_text, ProcTerm, ProcTermApply,
    ProcTermFieldAccess, Term, TermApply,
};
use crate::syscall::{emit_mov, mov, u64_literal, unknown_variable};
use crate::text::{decimal, nat_to_string};

verus! {

broadcast use vstd::std_specs::vec::group_vec_axioms;

// Arithmetic builtins bound by `let`: operands are loaded into registers, the operation
// runs, and the result is stored into the variable's stack slot, addressed from `rbp`.

/// Two operand loads and what follows them: the second load only after the first
/// succeeded, the tail only after both.
pub open spec fn two_loads(
    l1: (Seq<char>, Result<(), SCompileError>),
    l2: (Seq<char>, Result<(), SCompileError>),
    tail: Seq<char>,
) -> (Seq<char>, Result<(), SCompileError>) {
    match l1.1 {
        Err(e) => (l1.0, Err(e)),
        Ok(_) => match l2.1 {
            Err(e) => (l1.0 + l2.0, Err(e)),
            Ok(_) => (l1.0 + l2.0 + tail, Ok(())),
        },
    }
}

/// One operand load and what follows it.
pub open spec fn one_load(l: (Seq<char>, Result<(), SCompileError>), tail: Seq<char>) -> (Seq<char>, Result<(), SCompileError>) {
    match l.1 {
        Err(e) => (l.0, Err(e)),
        Ok(_) => (l.0 + tail, Ok(())),
    }
}

/// An integer operand of the type language loaded into `reg`.
pub open spec fn term_arg(vars: Map<Seq<char>, i32>, t: Term, reg: Seq<char>) -> (Seq<char>, Result<(), SCompileError>)
    decreases t,
{
    match t {
        Term::Number(n) => (mov(reg, u64_literal(n.number@)), Ok(())),
        Term::Variable(v) => if vars.contains_key(v.variable@) {
            (mov(reg, slot(vars[v.variable@])), Ok(()))
        } else {
            (Seq::empty(), Err(err(unknown_variable(v.variable@))))
        },
        Term::Paren(p) => term_arg(vars, *p.term, reg),
        _ => (Seq::empty(), Err(err("Unsupported argument type: "@ + term_kind(t)))),
    }
}

/// The load of an `f32` literal's bits into `reg`, through `eax`.
pub open spec fn f32_literal_load(bits: u32, reg: Seq<char>) -> Seq<char> {
    line("mov eax, "@ + hex8(bits)) + line("movd "@ + reg + ", eax"@)
}

/// An `f32` operand of the type language loaded into `reg`.
pub open spec fn term_f32_arg(vars: Map<Seq<char>, i32>, t: Term, reg: Seq<char>) -> (Seq<char>, Result<(), SCompileError>)
    decreases t,
{
    match t {
        Term::Number(n) => if has_suffix(n.number@, "f32"@) {
            (
                f32_literal_load(
                    match n.suffix_float_bits {
                        Some(b) => b,
                        None => 0,
                    },
                    reg,
                ),
                Ok(()),
            )
        } else {
            (Seq::empty(), Err(err("Expected f32 number, got: "@ + n.number@)))
        },
        Term::Variable(v) => if vars.contains_key(v.variable@) {
            (line("movss "@ + reg + ", "@ + dslot(vars[v.variable@])), Ok(()))
        } else {
            (Seq::empty(), Err(err(unknown_variable(v.variable@))))
        },
        Term::Paren(p) => term_f32_arg(vars, *p.term, reg),
        _ => (Seq::empty(), Err(err("Unsupported f32 argument type: "@ + term_kind(t)))),
    }
}

/// The store of `rax`-like register `reg` into the 8-byte slot at `offset`.
pub open spec fn store_u64(offset: i32, reg: Seq<char>) -> Seq<char> {
    mov(slot(offset), reg)
}

/// The store of `xmm0` into the 4-byte slot at `offset`.
pub open spec fn store_f32(offset: i32) -> Seq<char> {
    line("movss "@ + dslot(offset) + ", xmm0"@)
}

/// A builtin on two integer operands of the type language: `ops` leaves the result in
/// `result`.
pub open spec fn u64_let_code(
    vars: Map<Seq<char>, i32>,
    args: Seq<Term>,
    name: Seq<char>,
    ops: Seq<char>,
    result: Seq<char>,
    offset: i32,
) -> (Seq<char>, Result<(), SCompileError>) {
    if args.len() != 2 {
        (Seq::empty(), Err(err(arity_message(name, "2 arguments"@, args.len()))))
    } else {
        two_loads(term_arg(vars, args[0], "rax"@), term_arg(vars, args[1], "rbx"@), ops + store_u64(offset, result))
    }
}

/// A builtin on two `f32` operands of the type language: `ops` leaves the result in `xmm0`.
pub open spec fn f32_let_code(vars: Map<Seq<char>, i32>, args: Seq<Term>, name: Seq<char>, ops: Seq<char>, offset: i32) -> (
    Seq<char>,
    Result<(), SCompileError>,
) {
    if args.len() != 2 {
        (Seq::empty(), Err(err(arity_message(name, "2 arguments"@, args.len()))))
    } else {
        two_loads(term_f32_arg(vars, args[0], "xmm0"@), term_f32_arg(vars, args[1], "xmm1"@), ops + store_f32(offset))
    }
}

/// `f32_to_u64` on an operand of the type language.
pub open spec fn f32_to_u64_let_code(vars: Map<Seq<char>, i32>, args: Seq<Term>, offset: i32) -> (Seq<char>, Result<(), SCompileError>) {
    if args.len() != 1 {
        (Seq::empty(), Err(err(arity_message("f32_to_u64"@, "1 argument"@, args.len()))))
    } else {
        one_load(term_f32_arg(vars, args[0], "xmm0"@), line("cvttss2si rax, xmm0"@) + store_u64(offset, "rax"@))
    }
}

/// A builtin on two integer procedure operands, each loaded as the program compiler loads
/// arguments.
pub open spec fn u64_proc_code(
    vars: Map<Seq<char>, i32>,
    args: Seq<ProcTerm>,
    name: Seq<char>,
    ops: Seq<char>,
    result: Seq<char>,
    offset: i32,
) -> (Seq<char>, Result<(), SCompileError>) {
    if args.len() != 2 {
        (Seq::empty(), Err(err(arity_message(name, "2 arguments"@, args.len()))))
    } else {
        two_loads(asm_argument(vars, args[0], "rax"@), asm_argument(vars, args[1], "rbx"@), ops + store_u64(offset, result))
    }
}

/// A builtin on one integer procedure operand.
pub open spec fn u64_proc_unary_code(
    vars: Map<Seq<char>, i32>,
    args: Seq<ProcTerm>,
    name: Seq<char>,
    tail: Seq<char>,
) -> (Seq<char>, Result<(), SCompileError>) {
    if args.len() != 1 {
        (Seq::empty(), Err(err(arity_message(name, "1 argument"@, args.len()))))
    } else {
        one_load(asm_argument(vars, args[0], "rax"@), tail)
    }
}

/// The address arithmetic of an element index, with slots addressed from `rbp`.
pub open spec fn rbp_index_code(vars: Map<Seq<char>, i32>, index: ProcTerm, es: nat) -> (Seq<char>, Result<(), SCompileError>) {
    match index {
        ProcTerm::Number(n) => if index_offset(n, es) > 0 {
            (line("add rax, "@ + decimal(index_offset(n, es))), Ok(()))
        } else {
            (Seq::empty(), Ok(()))
        },
        ProcTerm::Variable(v) => if vars.contains_key(v.variable@) {
            (
                mov("rbx"@, slot(vars[v.variable@])) + mov("rcx"@, decimal(es)) + line("imul rbx, rcx"@) + line(
                    "add rax, rbx"@,
                ),
                Ok(()),
            )
        } else {
            (Seq::empty(), Ok(()))
        },
        _ => (Seq::empty(), Err(err("Unsupported index type in field access: "@ + proc_term_kind(index)))),
    }
}

/// The `f32` load of `object.field index` into `reg`: through the field array of a
/// Structure of Arrays, or else through a struct pointer with fields `x`, `y`, `z`.
pub open spec fn f32_field_code(m: AsmModel, fa: ProcTermFieldAccess, reg: Seq<char>) -> (Seq<char>, Result<(), SCompileError>) {
    let vars = m.frame.vars;
    let varr = m.frame.x.varr;
    let obj = fa.object@;
    let ptr = obj + "_"@ + fa.field@ + "_ptr"@;
    let load = line("movss "@ + reg + ", dword ptr [rax]"@);
    if vars.contains_key(ptr) {
        let head = mov("rax"@, slot(vars[ptr]));
        match fa.index {
            Some(index) => if varr.contains_key(obj) && m.arrays.contains_key(varr[obj]@) {
                let info = m.arrays[varr[obj]@];
                match element_size(names_of(info), types_of(info), fa.field@) {
                    Err(er) => (head, Err(er)),
                    Ok(es) => {
                        let ix = rbp_index_code(vars, *index, es);
                        match ix.1 {
                            Err(er) => (head + ix.0, Err(er)),
                            Ok(_) => (head + ix.0 + load, Ok(())),
                        }
                    },
                }
            } else {
                (head + load, Ok(()))
            },
            None => (head + load, Ok(())),
        }
    } else if vars.contains_key(obj) {
        let off = stub_field_offset(fa.field@);
        (
            mov("rax"@, slot(vars[obj])) + if off == 0 {
                load
            } else {
                line("movss "@ + reg + ", dword ptr [rax + "@ + decimal(off) + "]"@)
            },
            Ok(()),
        )
    } else {
        (Seq::empty(), Err(err(unknown_variable(obj))))
    }
}

/// Whether loading an `f32` operand calls a procedure of the program.
pub open spec fn f32_arg_calls_procedure(builtins: Map<Seq<char>, String>, t: ProcTerm) -> bool
    decreases t,
{
    match t {
        ProcTerm::Paren(p) => f32_arg_calls_procedure(builtins, *p.proc_term),
        ProcTerm::Dereference(d) => asm_calls_procedure(builtins, *d.term),
        _ => false,
    }
}

/// What loading an `f32` procedure operand into `reg` does.
pub open spec fn asm_f32_argument(m: AsmModel, arg: ProcTerm, reg: Seq<char>, m2: AsmModel, res: Result<(), SCompileError>) -> bool
    decreases arg,
{
    match arg {
        ProcTerm::Number(n) => if has_suffix(n.number@, "f32"@) {
            m2 == append_out(m, f32_literal_load(suffix_bits(n), reg)) && res is Ok
        } else {
            m2 == m && res == Err::<(), SCompileError>(err("Expected f32 number, got: "@ + n.number@))
        },
        ProcTerm::Variable(v) => if m.frame.vars.contains_key(v.variable@) {
            m2 == append_out(m, line("movss "@ + reg + ", "@ + dslot(m.frame.vars[v.variable@]))) && res is Ok
        } else {
            m2 == m && res == Err::<(), SCompileError>(err(unknown_variable(v.variable@)))
        },
        ProcTerm::Paren(p) => asm_f32_argument(m, *p.proc_term, reg, m2, res),
        ProcTerm::FieldAccess(fa) => {
            let c = f32_field_code(m, fa, reg);
            m2 == append_out(m, c.0) && res == c.1
        },
        ProcTerm::Dereference(d) => exists|m1: AsmModel, r1: Result<(), SCompileError>|
            #[trigger] asm_term_step(m, *d.term, m1, r1) && match r1 {
                Err(_) => m2 == m1 && res == r1,
                Ok(_) => m2 == append_out(m1, line("movss "@ + reg + ", dword ptr [rax]"@)) && res is Ok,
            },
        _ => m2 == m && res == Err::<(), SCompileError>(err("Unsupported f32 argument type in ProcTerm: "@ + proc_term_kind(arg))),
    }
}

/// What a builtin on two `f32` procedure operands does: the loads into `xmm0` and `xmm1`,
/// then `ops`, then the store of `xmm0`; or, for `f32_to_u64`-like tails, what `tail` says.
pub open spec fn f32_proc_step(
    m: AsmModel,
    args: Seq<ProcTerm>,
    name: Seq<char>,
    tail: Seq<char>,
    m2: AsmModel,
    res: Result<(), SCompileError>,
) -> bool {
    if args.len() != 2 {
        m2 == m && res == Err::<(), SCompileError>(err(arity_message(name, "2 arguments"@, args.len())))
    } else {
        exists|m1: AsmModel, r1: Result<(), SCompileError>|
            #[trigger] asm_f32_argument(m, args[0], "xmm0"@, m1, r1) && match r1 {
                Err(_) => m2 == m1 && res == r1,
                Ok(_) => exists|mb: AsmModel, rb: Result<(), SCompileError>|
                    #[trigger] asm_f32_argument(m1, args[1], "xmm1"@, mb, rb) && match rb {
                        Err(_) => m2 == mb && res == rb,
                        Ok(_) => m2 == append_out(mb, tail) && res is Ok,
                    },
            }
    }
}

/// What `f32_to_u64` on one `f32` procedure operand does.
pub open spec fn f32_to_u64_proc_step(m: AsmModel, args: Seq<ProcTerm>, offset: i32, m2: AsmModel, res: Result<(), SCompileError>) -> bool {
    if args.len() != 1 {
        m2 == m && res == Err::<(), SCompileError>(err(arity_message("f32_to_u64"@, "1 argument"@, args.len())))
    } else {
        exists|m1: AsmModel, r1: Result<(), SCompileError>|
            #[trigger] asm_f32_argument(m, args[0], "xmm0"@, m1, r1) && match r1 {
                Err(_) => m2 == m1 && res == r1,
                Ok(_) => m2 == append_out(m1, line("cvttss2si rax, xmm0"@) + store_u64(offset, "rax"@)) && res is Ok,
            }
    }
}


/// The bits of a float literal's text; 0 where it reads as no float.
pub open spec fn value_bits(bits: Option<u32>) -> u32 {
    match bits {
        Some(b) => b,
        None => 0,
    }
}

/// `__f32` on a number literal: its bits stored into the 4-byte slot at `offset`.
pub open spec fn f32_value_let_code(args: Seq<ProcTerm>, offset: i32) -> (Seq<char>, Result<(), SCompileError>) {
    if args.len() != 1 {
        (Seq::empty(), Err(err(arity_message("__f32"@, "1 argument"@, args.len()))))
    } else {
        match args[0] {
            ProcTerm::Number(n) => (line("mov eax, "@ + hex8(value_bits(n.float_bits))) + mov(dslot(offset), "eax"@), Ok(())),
            _ => (Seq::empty(), Err(err("__f32 expects numeric literal, got: "@ + proc_term_kind(args[0])))),
        }
    }
}

impl AssemblyCompiler {
    /// An integer operand of the type language into `register`.
    pub fn load_argument_into_register(&mut self, arg: &Term, register: &str) -> (r: Result<(), CompileError>)
        ensures
            final(self).appended(old(self), term_arg(old(self).frame().vars, *arg, register@).0),
            result_view(r) == term_arg(old(self).frame().vars, *arg, register@).1,
        decreases arg,
    {
        match arg {
            Term::Number(num) => {
                let value = self.parse_number(num.number.as_str());
                emit_mov(&mut self.output, register, value.as_str());
                Ok(())
            },
            Term::Variable(var) => match self.variables.get(var.variable.as_str()) {
                Some(offset) => {
                    let st = slot_text(*offset);
                    emit_mov(&mut self.output, register, st.as_str());
                    Ok(())
                },
                None => {
                    assert(self.output@ =~= old(self).output@ + Seq::<char>::empty());
                    Err(unsupported("Unknown variable: ", var.variable.as_str()))
                },
            },
            Term::Paren(paren) => self.load_argument_into_register(&paren.term, register),
            _ => {
                assert(self.output@ =~= old(self).output@ + Seq::<char>::empty());
                Err(unsupported("Unsupported argument type: ", term_kind_text(arg)))
            },
        }
    }

    /// The load of an `f32` literal's bits into `register`.
    fn emit_f32_literal(&mut self, bits: u32, register: &str)
        ensures
            final(self).appended(old(self), f32_literal_load(bits, register@)),
    {
        let hex = hex8_text(bits);
        let a = join2("mov eax, ", hex.as_str());
        emit(&mut self.output, a.as_str());
        let mut b = String::from_str("movd ");
        b.append(register);
        b.append(", eax");
        emit(&mut self.output, b.as_str());
        assert(self.output@ =~= old(self).output@ + f32_literal_load(bits, register@));
    }

    /// `movss register, dword ptr [rbp - 8 - (offset - 8)]`.
    fn emit_f32_slot_load(&mut self, register: &str, offset: i32)
        ensures
            final(self).appended(old(self), line("movss "@ + register@ + ", "@ + dslot(offset))),
    {
        let d = dslot_text(offset);
        let mut t = String::from_str("movss ");
        t.append(register);
        t.append(", ");
        t.append(d.as_str());
        emit(&mut self.output, t.as_str());
    }

    /// An `f32` operand of the type language into `register`.
    pub fn load_f32_argument_into_register(&mut self, arg: &Term, register: &str) -> (r: Result<(), CompileError>)
        ensures
            final(self).appended(old(self), term_f32_arg(old(self).frame().vars, *arg, register@).0),
            result_view(r) == term_f32_arg(old(self).frame().vars, *arg, register@).1,
        decreases arg,
    {
        match arg {
            Term::Number(num) => {
                if ends_with(num.number.as_str(), "f32") {
                    let bits = match num.suffix_float_bits {
                        Some(b) => b,
                        None => 0,
                    };
                    self.emit_f32_literal(bits, register);
                    Ok(())
                } else {
                    assert(self.output@ =~= old(self).output@ + Seq::<char>::empty());
                    Err(unsupported("Expected f32 number, got: ", num.number.as_str()))
                }
            },
            Term::Variable(var) => match self.variables.get(var.variable.as_str()) {
                Some(offset) => {
                    let off = *offset;
                    self.emit_f32_slot_load(register, off);
                    Ok(())
                },
                None => {
                    assert(self.output@ =~= old(self).output@ + Seq::<char>::empty());
                    Err(unsupported("Unknown variable: ", var.variable.as_str()))
                },
            },
            Term::Paren(paren) => self.load_f32_argument_into_register(&paren.term, register),
            _ => {
                assert(self.output@ =~= old(self).output@ + Seq::<char>::empty());
                Err(unsupported("Unsupported f32 argument type: ", term_kind_text(arg)))
            },
        }
    }

    fn emit_rbp_index(&mut self, index: &ProcTerm, es: usize) -> (r: Result<(), CompileError>)
        ensures
            final(self).appended(old(self), rbp_index_code(old(self).frame().vars, *index, es as nat).0),
            result_view(r) == rbp_index_code(old(self).frame().vars, *index, es as nat).1,
    {
        match index {
            ProcTerm::Number(num) => {
                let idx_text = crate::arrays::parse_number(num.number.as_str());
                let k: u128 = match crate::compile_text::parse_usize_text(idx_text.as_str()) {
                    Some(v) => v as u128,
                    None => 0,
                };
                assert(k * es <= u128::MAX) by (nonlinear_arith)
                    requires
                        k <= usize::MAX,
                        es <= usize::MAX,
                ;
                let product = k * (es as u128);
                if product > 0 {
                    let t = nat_to_string(product);
                    let a = join2("add rax, ", t.as_str());
                    emit(&mut self.output, a.as_str());
                } else {
                    assert(self.output@ =~= old(self).output@ + Seq::<char>::empty());
                }
                Ok(())
            },
            ProcTerm::Variable(var) => {
                match self.variables.get(var.variable.as_str()) {
                    Some(off) => {
                        let st = slot_text(*off);
                        emit_mov(&mut self.output, "rbx", st.as_str());
                        let e = crate::compile_text::usize_text(es);
                        emit_mov(&mut self.output, "rcx", e.as_str());
                        emit(&mut self.output, "imul rbx, rcx");
                        emit(&mut self.output, "add rax, rbx");
                        assert(self.output@ =~= old(self).output@ + rbp_index_code(old(self).frame().vars, *index, es as nat).0);
                    },
                    None => {
                        assert(self.output@ =~= old(self).output@ + Seq::<char>::empty());
                    },
                }
                Ok(())
            },
            _ => {
                assert(self.output@ =~= old(self).output@ + Seq::<char>::empty());
                Err(unsupported("Unsupported index type in field access: ", proc_term_kind_text(index)))
            },
        }
    }

    /// `movss register, dword ptr [rax]`.
    fn emit_f32_rax_load(&mut self, register: &str)
        ensures
            final(self).appended(old(self), line("movss "@ + register@ + ", dword ptr [rax]"@)),
    {
        let mut t = String::from_str("movss ");
        t.append(register);
        t.append(", dword ptr [rax]");
        emit(&mut self.output, t.as_str());
    }

    /// The `f32` load of a field access into `register`.
    #[verifier::spinoff_prover]
    #[verifier::rlimit(60)]
    fn load_f32_field(&mut self, field_access: &ProcTermFieldAccess, register: &str) -> (r: Result<(), CompileError>)
        requires
            old(self).wf(),
        ensures
            final(self).appended(old(self), f32_field_code(old(self).model(), *field_access, register@).0),
            result_view(r) == f32_field_code(old(self).model(), *field_access, register@).1,
    {
        let object_name = field_access.object_name();
        let field_name = field_access.field_name();
        let mut ptr = String::from_str(object_name);
        ptr.append("_");
        ptr.append(field_name);
        ptr.append("_ptr");
        let ptr_offset = match self.variables.get(ptr.as_str()) {
            Some(o) => Some(*o),
            None => None,
        };
        match ptr_offset {
            Some(po) => {
                let st = slot_text(po);
                emit_mov(&mut self.output, "rax", st.as_str());
                let ghost head_out = self.output@;
                match &field_access.index {
                    Some(index_term) => {
                        let element_size = match self.variable_arrays.get(object_name) {
                            Some(array_type) => match self.arrays.get(array_type.as_str()) {
                                Some(array_info) => Some(
                                    crate::arrays::get_element_size(
                                        array_info.field_types.as_slice(),
                                        array_info.field_names.as_slice(),
                                        field_name,
                                    ),
                                ),
                                None => None,
                            },
                            None => None,
                        };
                        match element_size {
                            Some(Ok(es)) => {
                                match self.emit_rbp_index(index_term, es) {
                                    Err(e) => {
                                        assert(self.output@ =~= old(self).output@ + f32_field_code(old(self).model(), *field_access, register@).0);
                                        return Err(e);
                                    },
                                    Ok(()) => {},
                                }
                            },
                            Some(Err(e)) => {
                                return Err(e);
                            },
                            None => {},
                        }
                    },
                    None => {},
                }
                let ghost before_load = self.output@;
                self.emit_f32_rax_load(register);
                assert(self.output@ =~= old(self).output@ + f32_field_code(old(self).model(), *field_access, register@).0);
                Ok(())
            },
            None => match self.variables.get(object_name) {
                Some(var_offset) => {
                    let st = slot_text(*var_offset);
                    emit_mov(&mut self.output, "rax", st.as_str());
                    let field_offset: u32 = if is_text(field_name, "x") {
                        0
                    } else if is_text(field_name, "y") {
                        4
                    } else if is_text(field_name, "z") {
                        8
                    } else {
                        0
                    };
                    if field_offset == 0 {
                        self.emit_f32_rax_load(register);
                    } else {
                        let digits = nat_to_string(field_offset as u128);
                        let mut t = String::from_str("movss ");
                        t.append(register);
                        t.append(", dword ptr [rax + ");
                        t.append(digits.as_str());
                        t.append("]");
                        emit(&mut self.output, t.as_str());
                    }
                    assert(self.output@ =~= old(self).output@ + f32_field_code(old(self).model(), *field_access, register@).0);
                    Ok(())
                },
                None => {
                    assert(self.output@ =~= old(self).output@ + Seq::<char>::empty());
                    Err(unsupported("Unknown variable: ", object_name))
                },
            },
        }
    }

    /// An `f32` procedure operand into `register`: a literal with the `f32` suffix, a
    /// variable, a field of an array or struct, or a dereferenced address.
    #[verifier::spinoff_prover]
    #[verifier::rlimit(60)]
    pub fn load_f32_proc_argument_into_register(&mut self, arg: &ProcTerm, register: &str) -> (r: Result<(), CompileError>)
        requires
            old(self).wf(),
            !f32_arg_calls_procedure(old(self).builtins@, *arg),
        ensures
            asm_f32_argument(old(self).model(), *arg, register@, final(self).model(), result_view(r)),
            final(self).loop_stack@ == old(self).loop_stack@,
            final(self).compile_options == old(self).compile_options,
            final(self).builtins == old(self).builtins,
            final(self).wf(),
        decreases arg,
    {
        match arg {
            ProcTerm::Number(num) => {
                if ends_with(num.number.as_str(), "f32") {
                    let bits = match num.suffix_float_bits {
                        Some(b) => b,
                        None => 0,
                    };
                    self.emit_f32_literal(bits, register);
                    Ok(())
                } else {
                    Err(unsupported("Expected f32 number, got: ", num.number.as_str()))
                }
            },
            ProcTerm::Variable(var) => match self.variables.get(var.variable.as_str()) {
                Some(offset) => {
                    let off = *offset;
                    self.emit_f32_slot_load(register, off);
                    Ok(())
                },
                None => Err(unsupported("Unknown variable: ", var.variable.as_str())),
            },
            ProcTerm::Paren(paren) => self.load_f32_proc_argument_into_register(&paren.proc_term, register),
            ProcTerm::FieldAccess(field_access) => self.load_f32_field(field_access, register),
            ProcTerm::Dereference(dereference) => {
                let inner = self.compile_proc_term(&dereference.term);
                let ghost m1 = self.model();
                match inner {
                    Err(e) => {
                        assert(asm_term_step(old(self).model(), *dereference.term, m1, Err(e@)));
                        Err(e)
                    },
                    Ok(()) => {
                        assert(asm_term_step(old(self).model(), *dereference.term, m1, Ok(())));
                        self.emit_f32_rax_load(register);
                        Ok(())
                    },
                }
            },
            _ => Err(unsupported("Unsupported f32 argument type in ProcTerm: ", proc_term_kind_text(arg))),
        }
    }
}


impl AssemblyCompiler {
    /// `mov qword ptr [rbp - 8 - (offset - 8)], reg`.
    fn emit_store_u64(&mut self, offset: i32, reg: &str)
        ensures
            final(self).appended(old(self), store_u64(offset, reg@)),
    {
        let st = slot_text(offset);
        emit_mov(&mut self.output, st.as_str(), reg);
    }

    /// `movss dword ptr [rbp - 8 - (offset - 8)], xmm0`.
    fn emit_store_f32(&mut self, offset: i32)
        ensures
            final(self).appended(old(self), store_f32(offset)),
    {
        let d = dslot_text(offset);
        let mut t = String::from_str("movss ");
        t.append(d.as_str());
        t.append(", xmm0");
        emit(&mut self.output, t.as_str());
    }

    fn u64_let(&mut self, apply: &TermApply, offset: i32, name: &str, ops: &str, result: &str) -> (r: Result<(), CompileError>)
        ensures
            final(self).appended(old(self), u64_let_code(old(self).frame().vars, apply.args@, name@, ops@, result@, offset).0),
            result_view(r) == u64_let_code(old(self).frame().vars, apply.args@, name@, ops@, result@, offset).1,
    {
        if apply.args.len() != 2 {
            assert(self.output@ =~= old(self).output@ + Seq::<char>::empty());
            return Err(arity_error(name, "2 arguments", apply.args.len()));
        }
        match self.load_argument_into_register(&apply.args[0], "rax") {
            Err(e) => {
                return Err(e);
            },
            Ok(()) => {},
        }
        let ghost mid = self.output@;
        match self.load_argument_into_register(&apply.args[1], "rbx") {
            Err(e) => {
                assert(self.output@ =~= old(self).output@ + u64_let_code(old(self).frame().vars, apply.args@, name@, ops@, result@, offset).0);
                return Err(e);
            },
            Ok(()) => {},
        }
        self.output.append(ops);
        self.emit_store_u64(offset, result);
        assert(self.output@ =~= old(self).output@ + u64_let_code(old(self).frame().vars, apply.args@, name@, ops@, result@, offset).0);
        Ok(())
    }

    fn f32_let(&mut self, apply: &TermApply, offset: i32, name: &str, ops: &str) -> (r: Result<(), CompileError>)
        ensures
            final(self).appended(old(self), f32_let_code(old(self).frame().vars, apply.args@, name@, ops@, offset).0),
            result_view(r) == f32_let_code(old(self).frame().vars, apply.args@, name@, ops@, offset).1,
    {
        if apply.args.len() != 2 {
            assert(self.output@ =~= old(self).output@ + Seq::<char>::empty());
            return Err(arity_error(name, "2 arguments", apply.args.len()));
        }
        match self.load_f32_argument_into_register(&apply.args[0], "xmm0") {
            Err(e) => {
                return Err(e);
            },
            Ok(()) => {},
        }
        match self.load_f32_argument_into_register(&apply.args[1], "xmm1") {
            Err(e) => {
                assert(self.output@ =~= old(self).output@ + f32_let_code(old(self).frame().vars, apply.args@, name@, ops@, offset).0);
                return Err(e);
            },
            Ok(()) => {},
        }
        self.output.append(ops);
        self.emit_store_f32(offset);
        assert(self.output@ =~= old(self).output@ + f32_let_code(old(self).frame().vars, apply.args@, name@, ops@, offset).0);
        Ok(())
    }

    fn u64_proc(&mut self, apply: &ProcTermApply, offset: i32, name: &str, ops: &str, result: &str) -> (r: Result<(), CompileError>)
        ensures
            final(self).appended(old(self), u64_proc_code(old(self).frame().vars, apply.args@, name@, ops@, result@, offset).0),
            result_view(r) == u64_proc_code(old(self).frame().vars, apply.args@, name@, ops@, result@, offset).1,
    {
        if apply.args.len() != 2 {
            assert(self.output@ =~= old(self).output@ + Seq::<char>::empty());
            return Err(arity_error(name, "2 arguments", apply.args.len()));
        }
        match self.load_proc_argument_into_register(&apply.args[0], "rax") {
            Err(e) => {
                return Err(e);
            },
            Ok(()) => {},
        }
        match self.load_proc_argument_into_register(&apply.args[1], "rbx") {
            Err(e) => {
                assert(self.output@ =~= old(self).output@ + u64_proc_code(old(self).frame().vars, apply.args@, name@, ops@, result@, offset).0);
                return Err(e);
            },
            Ok(()) => {},
        }
        self.output.append(ops);
        self.emit_store_u64(offset, result);
        assert(self.output@ =~= old(self).output@ + u64_proc_code(old(self).frame().vars, apply.args@, name@, ops@, result@, offset).0);
        Ok(())
    }

    fn u64_proc_unary(&mut self, apply: &ProcTermApply, offset: i32, name: &str, ops: &str, f32_store: bool) -> (r: Result<(), CompileError>)
        ensures
            final(self).appended(
                old(self),
                u64_proc_unary_code(
                    old(self).frame().vars,
                    apply.args@,
                    name@,
                    ops@ + if f32_store {
                        store_f32(offset)
                    } else {
                        store_u64(offset, "rax"@)
                    },
                ).0,
            ),
            result_view(r) == u64_proc_unary_code(
                old(self).frame().vars,
                apply.args@,
                name@,
                ops@ + if f32_store {
                    store_f32(offset)
                } else {
                    store_u64(offset, "rax"@)
                },
            ).1,
    {
        if apply.args.len() != 1 {
            assert(self.output@ =~= old(self).output@ + Seq::<char>::empty());
            return Err(arity_error(name, "1 argument", apply.args.len()));
        }
        match self.load_proc_argument_into_register(&apply.args[0], "rax") {
            Err(e) => {
                return Err(e);
            },
            Ok(()) => {},
        }
        let ghost mid = self.output@;
        self.output.append(ops);
        if f32_store {
            self.emit_store_f32(offset);
        } else {
            self.emit_store_u64(offset, "rax");
        }
        proof {
            let tail = ops@ + if f32_store {
                store_f32(offset)
            } else {
                store_u64(offset, "rax"@)
            };
            assert(self.output@ =~= mid + tail);
            assert(self.output@ =~= old(self).output@ + u64_proc_unary_code(old(self).frame().vars, apply.args@, name@, tail).0);
        }
        Ok(())
    }

    #[verifier::spinoff_prover]
    #[verifier::rlimit(60)]
    fn f32_proc(&mut self, apply: &ProcTermApply, offset: i32, name: &str, ops: &str, to_u64: bool) -> (r: Result<(), CompileError>)
        requires
            old(self).wf(),
            forall|i: int| 0 <= i < apply.args@.len() ==> !f32_arg_calls_procedure(old(self).builtins@, #[trigger] apply.args@[i]),
        ensures
            f32_proc_step(
                old(self).model(),
                apply.args@,
                name@,
                ops@ + if to_u64 {
                    store_u64(offset, "rax"@)
                } else {
                    store_f32(offset)
                },
                final(self).model(),
                result_view(r),
            ),
            final(self).loop_stack@ == old(self).loop_stack@,
            final(self).compile_options == old(self).compile_options,
            final(self).builtins == old(self).builtins,
            final(self).wf(),
    {
        let ghost tail = ops@ + if to_u64 {
            store_u64(offset, "rax"@)
        } else {
            store_f32(offset)
        };
        if apply.args.len() != 2 {
            return Err(arity_error(name, "2 arguments", apply.args.len()));
        }
        let ghost m0 = self.model();
        let r1 = self.load_f32_proc_argument_into_register(&apply.args[0], "xmm0");
        let ghost m1 = self.model();
        match r1 {
            Err(e) => {
                assert(asm_f32_argument(m0, apply.args@[0], "xmm0"@, m1, Err(e@)));
                return Err(e);
            },
            Ok(()) => {},
        }
        let r2 = self.load_f32_proc_argument_into_register(&apply.args[1], "xmm1");
        let ghost mb = self.model();
        match r2 {
            Err(e) => {
                assert(asm_f32_argument(m0, apply.args@[0], "xmm0"@, m1, Ok(())));
                assert(asm_f32_argument(m1, apply.args@[1], "xmm1"@, mb, Err(e@)));
                return Err(e);
            },
            Ok(()) => {},
        }
        self.output.append(ops);
        if to_u64 {
            self.emit_store_u64(offset, "rax");
        } else {
            self.emit_store_f32(offset);
        }
        proof {
            assert(self.output@ =~= mb.frame.x.out + tail);
            assert(self.model() == append_out(mb, tail));
            assert(asm_f32_argument(m0, apply.args@[0], "xmm0"@, m1, Ok(())));
            assert(asm_f32_argument(m1, apply.args@[1], "xmm1"@, mb, Ok(())));
        }
        Ok(())
    }
}

impl AssemblyCompiler {
    /// `#let x = __u64_add a b;`: the sum into the slot at `offset`.
    pub fn compile_u64_add_let(&mut self, apply: &TermApply, offset: i32) -> (r: Result<(), CompileError>)
        ensures
            final(self).appended(old(self), u64_let_code(old(self).frame().vars, apply.args@, "u64_add"@, "    add rax, rbx\n"@, "rax"@, offset).0),
            result_view(r) == u64_let_code(old(self).frame().vars, apply.args@, "u64_add"@, "    add rax, rbx\n"@, "rax"@, offset).1,
    {
        self.u64_let(apply, offset, "u64_add", "    add rax, rbx\n", "rax")
    }

    /// `#let x = __u64_sub a b;`: the difference into the slot at `offset`.
    pub fn compile_u64_sub_let(&mut self, apply: &TermApply, offset: i32) -> (r: Result<(), CompileError>)
        ensures
            final(self).appended(old(self), u64_let_code(old(self).frame().vars, apply.args@, "u64_sub"@, "    sub rax, rbx\n"@, "rax"@, offset).0),
            result_view(r) == u64_let_code(old(self).frame().vars, apply.args@, "u64_sub"@, "    sub rax, rbx\n"@, "rax"@, offset).1,
    {
        self.u64_let(apply, offset, "u64_sub", "    sub rax, rbx\n", "rax")
    }

    /// `#let x = __u64_mul a b;`: the product into the slot at `offset`.
    pub fn compile_u64_mul_let(&mut self, apply: &TermApply, offset: i32) -> (r: Result<(), CompileError>)
        ensures
            final(self).appended(old(self), u64_let_code(old(self).frame().vars, apply.args@, "u64_mul"@, "    imul rax, rbx\n"@, "rax"@, offset).0),
            result_view(r) == u64_let_code(old(self).frame().vars, apply.args@, "u64_mul"@, "    imul rax, rbx\n"@, "rax"@, offset).1,
    {
        self.u64_let(apply, offset, "u64_mul", "    imul rax, rbx\n", "rax")
    }

    /// `#let x = __u64_div a b;`: the quotient into the slot at `offset`.
    pub fn compile_u64_div_let(&mut self, apply: &TermApply, offset: i32) -> (r: Result<(), CompileError>)
        ensures
            final(self).appended(old(self), u64_let_code(old(self).frame().vars, apply.args@, "u64_div"@, "    xor rdx, rdx\n    div rbx\n"@, "rax"@, offset).0),
            result_view(r) == u64_let_code(old(self).frame().vars, apply.args@, "u64_div"@, "    xor rdx, rdx\n    div rbx\n"@, "rax"@, offset).1,
    {
        self.u64_let(apply, offset, "u64_div", "    xor rdx, rdx\n    div rbx\n", "rax")
    }

    /// `#let x = __u64_mod a b;`: the remainder into the slot at `offset`.
    pub fn compile_u64_mod_let(&mut self, apply: &TermApply, offset: i32) -> (r: Result<(), CompileError>)
        ensures
            final(self).appended(old(self), u64_let_code(old(self).frame().vars, apply.args@, "u64_mod"@, "    xor rdx, rdx\n    div rbx\n"@, "rdx"@, offset).0),
            result_view(r) == u64_let_code(old(self).frame().vars, apply.args@, "u64_mod"@, "    xor rdx, rdx\n    div rbx\n"@, "rdx"@, offset).1,
    {
        self.u64_let(apply, offset, "u64_mod", "    xor rdx, rdx\n    div rbx\n", "rdx")
    }

    /// `#let x = __f32_add a b;`: the sum into the 4-byte slot at `offset`.
    pub fn compile_f32_add_let(&mut self, apply: &TermApply, offset: i32) -> (r: Result<(), CompileError>)
        ensures
            final(self).appended(old(self), f32_let_code(old(self).frame().vars, apply.args@, "f32_add"@, "    addss xmm0, xmm1\n"@, offset).0),
            result_view(r) == f32_let_code(old(self).frame().vars, apply.args@, "f32_add"@, "    addss xmm0, xmm1\n"@, offset).1,
    {
        self.f32_let(apply, offset, "f32_add", "    addss xmm0, xmm1\n")
    }

    /// `#let x = __f32_sub a b;`: the difference into the 4-byte slot at `offset`.
    pub fn compile_f32_sub_let(&mut self, apply: &TermApply, offset: i32) -> (r: Result<(), CompileError>)
        ensures
            final(self).appended(old(self), f32_let_code(old(self).frame().vars, apply.args@, "f32_sub"@, "    subss xmm0, xmm1\n"@, offset).0),
            result_view(r) == f32_let_code(old(self).frame().vars, apply.args@, "f32_sub"@, "    subss xmm0, xmm1\n"@, offset).1,
    {
        self.f32_let(apply, offset, "f32_sub", "    subss xmm0, xmm1\n")
    }

    /// `#let x = __f32_mul a b;`: the product into the 4-byte slot at `offset`.
    pub fn compile_f32_mul_let(&mut self, apply: &TermApply, offset: i32) -> (r: Result<(), CompileError>)
        ensures
            final(self).appended(old(self), f32_let_code(old(self).frame().vars, apply.args@, "f32_mul"@, "    mulss xmm0, xmm1\n"@, offset).0),
            result_view(r) == f32_let_code(old(self).frame().vars, apply.args@, "f32_mul"@, "    mulss xmm0, xmm1\n"@, offset).1,
    {
        self.f32_let(apply, offset, "f32_mul", "    mulss xmm0, xmm1\n")
    }

    /// `#let x = __f32_div a b;`: the quotient into the 4-byte slot at `offset`.
    pub fn compile_f32_div_let(&mut self, apply: &TermApply, offset: i32) -> (r: Result<(), CompileError>)
        ensures
            final(self).appended(old(self), f32_let_code(old(self).frame().vars, apply.args@, "f32_div"@, "    divss xmm0, xmm1\n"@, offset).0),
            result_view(r) == f32_let_code(old(self).frame().vars, apply.args@, "f32_div"@, "    divss xmm0, xmm1\n"@, offset).1,
    {
        self.f32_let(apply, offset, "f32_div", "    divss xmm0, xmm1\n")
    }

    /// `#let x = __f32_to_u64 a;`: the float truncated to an integer.
    pub fn compile_f32_to_u64_let(&mut self, apply: &TermApply, offset: i32) -> (r: Result<(), CompileError>)
        ensures
            final(self).appended(old(self), f32_to_u64_let_code(old(self).frame().vars, apply.args@, offset).0),
            result_view(r) == f32_to_u64_let_code(old(self).frame().vars, apply.args@, offset).1,
    {
        if apply.args.len() != 1 {
            assert(self.output@ =~= old(self).output@ + Seq::<char>::empty());
            return Err(arity_error("f32_to_u64", "1 argument", apply.args.len()));
        }
        match self.load_f32_argument_into_register(&apply.args[0], "xmm0") {
            Err(e) => {
                return Err(e);
            },
            Ok(()) => {},
        }
        let ghost mid = self.output@;
        emit(&mut self.output, "cvttss2si rax, xmm0");
        self.emit_store_u64(offset, "rax");
        assert(self.output@ =~= mid + (line("cvttss2si rax, xmm0"@) + store_u64(offset, "rax"@)));
        assert(self.output@ =~= old(self).output@ + f32_to_u64_let_code(old(self).frame().vars, apply.args@, offset).0);
        Ok(())
    }

    /// `__u64_add a b` on procedure operands, its sum stored into the slot at `offset`.
    pub fn compile_u64_add_let_proc(&mut self, apply: &ProcTermApply, offset: i32) -> (r: Result<(), CompileError>)
        ensures
            final(self).appended(old(self), u64_proc_code(old(self).frame().vars, apply.args@, "u64_add"@, "    add rax, rbx\n"@, "rax"@, offset).0),
            result_view(r) == u64_proc_code(old(self).frame().vars, apply.args@, "u64_add"@, "    add rax, rbx\n"@, "rax"@, offset).1,
    {
        self.u64_proc(apply, offset, "u64_add", "    add rax, rbx\n", "rax")
    }

    /// `__u64_sub a b` on procedure operands, its difference stored into the slot at `offset`.
    pub fn compile_u64_sub_let_proc(&mut self, apply: &ProcTermApply, offset: i32) -> (r: Result<(), CompileError>)
        ensures
            final(self).appended(old(self), u64_proc_code(old(self).frame().vars, apply.args@, "u64_sub"@, "    sub rax, rbx\n"@, "rax"@, offset).0),
            result_view(r) == u64_proc_code(old(self).frame().vars, apply.args@, "u64_sub"@, "    sub rax, rbx\n"@, "rax"@, offset).1,
    {
        self.u64_proc(apply, offset, "u64_sub", "    sub rax, rbx\n", "rax")
    }

    /// `__u64_mul a b` on procedure operands, its product stored into the slot at `offset`.
    pub fn compile_u64_mul_let_proc(&mut self, apply: &ProcTermApply, offset: i32) -> (r: Result<(), CompileError>)
        ensures
            final(self).appended(old(self), u64_proc_code(old(self).frame().vars, apply.args@, "u64_mul"@, "    imul rax, rbx\n"@, "rax"@, offset).0),
            result_view(r) == u64_proc_code(old(self).frame().vars, apply.args@, "u64_mul"@, "    imul rax, rbx\n"@, "rax"@, offset).1,
    {
        self.u64_proc(apply, offset, "u64_mul", "    imul rax, rbx\n", "rax")
    }

    /// `__u64_div a b` on procedure operands, its quotient stored into the slot at `offset`.
    pub fn compile_u64_div_let_proc(&mut self, apply: &ProcTermApply, offset: i32) -> (r: Result<(), CompileError>)
        ensures
            final(self).appended(old(self), u64_proc_code(old(self).frame().vars, apply.args@, "u64_div"@, "    xor rdx, rdx\n    div rbx\n"@, "rax"@, offset).0),
            result_view(r) == u64_proc_code(old(self).frame().vars, apply.args@, "u64_div"@, "    xor rdx, rdx\n    div rbx\n"@, "rax"@, offset).1,
    {
        self.u64_proc(apply, offset, "u64_div", "    xor rdx, rdx\n    div rbx\n", "rax")
    }

    /// `__u64_mod a b` on procedure operands, its remainder stored into the slot at `offset`.
    pub fn compile_u64_mod_let_proc(&mut self, apply: &ProcTermApply, offset: i32) -> (r: Result<(), CompileError>)
        ensures
            final(self).appended(old(self), u64_proc_code(old(self).frame().vars, apply.args@, "u64_mod"@, "    xor rdx, rdx\n    div rbx\n"@, "rdx"@, offset).0),
            result_view(r) == u64_proc_code(old(self).frame().vars, apply.args@, "u64_mod"@, "    xor rdx, rdx\n    div rbx\n"@, "rdx"@, offset).1,
    {
        self.u64_proc(apply, offset, "u64_mod", "    xor rdx, rdx\n    div rbx\n", "rdx")
    }

    /// `__f32_add a b` on procedure operands, its sum stored into the 4-byte slot at
    /// `offset`.
    pub fn compile_f32_add_let_proc(&mut self, apply: &ProcTermApply, offset: i32) -> (r: Result<(), CompileError>)
        requires
            old(self).wf(),
            forall|i: int| 0 <= i < apply.args@.len() ==> !f32_arg_calls_procedure(old(self).builtins@, #[trigger] apply.args@[i]),
        ensures
            f32_proc_step(old(self).model(), apply.args@, "f32_add"@, "    addss xmm0, xmm1\n"@ + store_f32(offset), final(self).model(), result_view(r)),
            final(self).loop_stack@ == old(self).loop_stack@,
            final(self).compile_options == old(self).compile_options,
            final(self).builtins == old(self).builtins,
            final(self).wf(),
    {
        self.f32_proc(apply, offset, "f32_add", "    addss xmm0, xmm1\n", false)
    }

    /// `__f32_sub a b` on procedure operands, its difference stored into the 4-byte slot at
    /// `offset`.
    pub fn compile_f32_sub_let_proc(&mut self, apply: &ProcTermApply, offset: i32) -> (r: Result<(), CompileError>)
        requires
            old(self).wf(),
            forall|i: int| 0 <= i < apply.args@.len() ==> !f32_arg_calls_procedure(old(self).builtins@, #[trigger] apply.args@[i]),
        ensures
            f32_proc_step(old(self).model(), apply.args@, "f32_sub"@, "    subss xmm0, xmm1\n"@ + store_f32(offset), final(self).model(), result_view(r)),
            final(self).loop_stack@ == old(self).loop_stack@,
            final(self).compile_options == old(self).compile_options,
            final(self).builtins == old(self).builtins,
            final(self).wf(),
    {
        self.f32_proc(apply, offset, "f32_sub", "    subss xmm0, xmm1\n", false)
    }

    /// `__f32_mul a b` on procedure operands, its product stored into the 4-byte slot at
    /// `offset`.
    pub fn compile_f32_mul_let_proc(&mut self, apply: &ProcTermApply, offset: i32) -> (r: Result<(), CompileError>)
        requires
            old(self).wf(),
            forall|i: int| 0 <= i < apply.args@.len() ==> !f32_arg_calls_procedure(old(self).builtins@, #[trigger] apply.args@[i]),
        ensures
            f32_proc_step(old(self).model(), apply.args@, "f32_mul"@, "    mulss xmm0, xmm1\n"@ + store_f32(offset), final(self).model(), result_view(r)),
            final(self).loop_stack@ == old(self).loop_stack@,
            final(self).compile_options == old(self).compile_options,
            final(self).builtins == old(self).builtins,
            final(self).wf(),
    {
        self.f32_proc(apply, offset, "f32_mul", "    mulss xmm0, xmm1\n", false)
    }

    /// `__f32_div a b` on procedure operands, its quotient stored into the 4-byte slot at
    /// `offset`.
    pub fn compile_f32_div_let_proc(&mut self, apply: &ProcTermApply, offset: i32) -> (r: Result<(), CompileError>)
        requires
            old(self).wf(),
            forall|i: int| 0 <= i < apply.args@.len() ==> !f32_arg_calls_procedure(old(self).builtins@, #[trigger] apply.args@[i]),
        ensures
            f32_proc_step(old(self).model(), apply.args@, "f32_div"@, "    divss xmm0, xmm1\n"@ + store_f32(offset), final(self).model(), result_view(r)),
            final(self).loop_stack@ == old(self).loop_stack@,
            final(self).compile_options == old(self).compile_options,
            final(self).builtins == old(self).builtins,
            final(self).wf(),
    {
        self.f32_proc(apply, offset, "f32_div", "    divss xmm0, xmm1\n", false)
    }

    /// `__f32_to_u64 a` on a procedure operand, the truncated integer stored into the slot at
    /// `offset`.
    pub fn compile_f32_to_u64_let_proc(&mut self, apply: &ProcTermApply, offset: i32) -> (r: Result<(), CompileError>)
        requires
            old(self).wf(),
            forall|i: int| 0 <= i < apply.args@.len() ==> !f32_arg_calls_procedure(old(self).builtins@, #[trigger] apply.args@[i]),
        ensures
            f32_to_u64_proc_step(old(self).model(), apply.args@, offset, final(self).model(), result_view(r)),
            final(self).loop_stack@ == old(self).loop_stack@,
            final(self).compile_options == old(self).compile_options,
            final(self).builtins == old(self).builtins,
            final(self).wf(),
    {
        self.f32_to_u64_proc(apply, offset)
    }

    /// `__u64_add a b` on procedure operands, its sum stored into the slot at `offset`.
    pub fn compile_u64_add_assign_proc(&mut self, apply: &ProcTermApply, offset: i32) -> (r: Result<(), CompileError>)
        ensures
            final(self).appended(old(self), u64_proc_code(old(self).frame().vars, apply.args@, "u64_add"@, "    add rax, rbx\n"@, "rax"@, offset).0),
            result_view(r) == u64_proc_code(old(self).frame().vars, apply.args@, "u64_add"@, "    add rax, rbx\n"@, "rax"@, offset).1,
    {
        self.u64_proc(apply, offset, "u64_add", "    add rax, rbx\n", "rax")
    }

    /// `__u64_sub a b` on procedure operands, its difference stored into the slot at `offset`.
    pub fn compile_u64_sub_assign_proc(&mut self, apply: &ProcTermApply, offset: i32) -> (r: Result<(), CompileError>)
        ensures
            final(self).appended(old(self), u64_proc_code(old(self).frame().vars, apply.args@, "u64_sub"@, "    sub rax, rbx\n"@, "rax"@, offset).0),
            result_view(r) == u64_proc_code(old(self).frame().vars, apply.args@, "u64_sub"@, "    sub rax, rbx\n"@, "rax"@, offset).1,
    {
        self.u64_proc(apply, offset, "u64_sub", "    sub rax, rbx\n", "rax")
    }

    /// `__u64_mul a b` on procedure operands, its product stored into the slot at `offset`.
    pub fn compile_u64_mul_assign_proc(&mut self, apply: &ProcTermApply, offset: i32) -> (r: Result<(), CompileError>)
        ensures
            final(self).appended(old(self), u64_proc_code(old(self).frame().vars, apply.args@, "u64_mul"@, "    imul rax, rbx\n"@, "rax"@, offset).0),
            result_view(r) == u64_proc_code(old(self).frame().vars, apply.args@, "u64_mul"@, "    imul rax, rbx\n"@, "rax"@, offset).1,
    {
        self.u64_proc(apply, offset, "u64_mul", "    imul rax, rbx\n", "rax")
    }

    /// `__u64_div a b` on procedure operands, its quotient stored into the slot at `offset`.
    pub fn compile_u64_div_assign_proc(&mut self, apply: &ProcTermApply, offset: i32) -> (r: Result<(), CompileError>)
        ensures
            final(self).appended(old(self), u64_proc_code(old(self).frame().vars, apply.args@, "u64_div"@, "    xor rdx, rdx\n    div rbx\n"@, "rax"@, offset).0),
            result_view(r) == u64_proc_code(old(self).frame().vars, apply.args@, "u64_div"@, "    xor rdx, rdx\n    div rbx\n"@, "rax"@, offset).1,
    {
        self.u64_proc(apply, offset, "u64_div", "    xor rdx, rdx\n    div rbx\n", "rax")
    }

    /// `__u64_mod a b` on procedure operands, its remainder stored into the slot at `offset`.
    pub fn compile_u64_mod_assign_proc(&mut self, apply: &ProcTermApply, offset: i32) -> (r: Result<(), CompileError>)
        ensures
            final(self).appended(old(self), u64_proc_code(old(self).frame().vars, apply.args@, "u64_mod"@, "    xor rdx, rdx\n    div rbx\n"@, "rdx"@, offset).0),
            result_view(r) == u64_proc_code(old(self).frame().vars, apply.args@, "u64_mod"@, "    xor rdx, rdx\n    div rbx\n"@, "rdx"@, offset).1,
    {
        self.u64_proc(apply, offset, "u64_mod", "    xor rdx, rdx\n    div rbx\n", "rdx")
    }

    /// `__f32_add a b` on procedure operands, its sum stored into the 4-byte slot at
    /// `offset`.
    pub fn compile_f32_add_assign_proc(&mut self, apply: &ProcTermApply, offset: i32) -> (r: Result<(), CompileError>)
        requires
            old(self).wf(),
            forall|i: int| 0 <= i < apply.args@.len() ==> !f32_arg_calls_procedure(old(self).builtins@, #[trigger] apply.args@[i]),
        ensures
            f32_proc_step(old(self).model(), apply.args@, "f32_add"@, "    addss xmm0, xmm1\n"@ + store_f32(offset), final(self).model(), result_view(r)),
            final(self).loop_stack@ == old(self).loop_stack@,
            final(self).compile_options == old(self).compile_options,
            final(self).builtins == old(self).builtins,
            final(self).wf(),
    {
        self.f32_proc(apply, offset, "f32_add", "    addss xmm0, xmm1\n", false)
    }

    /// `__f32_sub a b` on procedure operands, its difference stored into the 4-byte slot at
    /// `offset`.
    pub fn compile_f32_sub_assign_proc(&mut self, apply: &ProcTermApply, offset: i32) -> (r: Result<(), CompileError>)
        requires
            old(self).wf(),
            forall|i: int| 0 <= i < apply.args@.len() ==> !f32_arg_calls_procedure(old(self).builtins@, #[trigger] apply.args@[i]),
        ensures
            f32_proc_step(old(self).model(), apply.args@, "f32_sub"@, "    subss xmm0, xmm1\n"@ + store_f32(offset), final(self).model(), result_view(r)),
            final(self).loop_stack@ == old(self).loop_stack@,
            final(self).compile_options == old(self).compile_options,
            final(self).builtins == old(self).builtins,
            final(self).wf(),
    {
        self.f32_proc(apply, offset, "f32_sub", "    subss xmm0, xmm1\n", false)
    }

    /// `__f32_mul a b` on procedure operands, its product stored into the 4-byte slot at
    /// `offset`.
    pub fn compile_f32_mul_assign_proc(&mut self, apply: &ProcTermApply, offset: i32) -> (r: Result<(), CompileError>)
        requires
            old(self).wf(),
            forall|i: int| 0 <= i < apply.args@.len() ==> !f32_arg_calls_procedure(old(self).builtins@, #[trigger] apply.args@[i]),
        ensures
            f32_proc_step(old(self).model(), apply.args@, "f32_mul"@, "    mulss xmm0, xmm1\n"@ + store_f32(offset), final(self).model(), result_view(r)),
            final(self).loop_stack@ == old(self).loop_stack@,
            final(self).compile_options == old(self).compile_options,
            final(self).builtins == old(self).builtins,
            final(self).wf(),
    {
        self.f32_proc(apply, offset, "f32_mul", "    mulss xmm0, xmm1\n", false)
    }

    /// `__f32_div a b` on procedure operands, its quotient stored into the 4-byte slot at
    /// `offset`.
    pub fn compile_f32_div_assign_proc(&mut self, apply: &ProcTermApply, offset: i32) -> (r: Result<(), CompileError>)
        requires
            old(self).wf(),
            forall|i: int| 0 <= i < apply.args@.len() ==> !f32_arg_calls_procedure(old(self).builtins@, #[trigger] apply.args@[i]),
        ensures
            f32_proc_step(old(self).model(), apply.args@, "f32_div"@, "    divss xmm0, xmm1\n"@ + store_f32(offset), final(self).model(), result_view(r)),
            final(self).loop_stack@ == old(self).loop_stack@,
            final(self).compile_options == old(self).compile_options,
            final(self).builtins == old(self).builtins,
            final(self).wf(),
    {
        self.f32_proc(apply, offset, "f32_div", "    divss xmm0, xmm1\n", false)
    }

    /// `__f32_to_u64 a` on a procedure operand, the truncated integer stored into the slot at
    /// `offset`.
    pub fn compile_f32_to_u64_assign_proc(&mut self, apply: &ProcTermApply, offset: i32) -> (r: Result<(), CompileError>)
        requires
            old(self).wf(),
            forall|i: int| 0 <= i < apply.args@.len() ==> !f32_arg_calls_procedure(old(self).builtins@, #[trigger] apply.args@[i]),
        ensures
            f32_to_u64_proc_step(old(self).model(), apply.args@, offset, final(self).model(), result_view(r)),
            final(self).loop_stack@ == old(self).loop_stack@,
            final(self).compile_options == old(self).compile_options,
            final(self).builtins == old(self).builtins,
            final(self).wf(),
    {
        self.f32_to_u64_proc(apply, offset)
    }

    fn f32_to_u64_proc(&mut self, apply: &ProcTermApply, offset: i32) -> (r: Result<(), CompileError>)
        requires
            old(self).wf(),
            forall|i: int| 0 <= i < apply.args@.len() ==> !f32_arg_calls_procedure(old(self).builtins@, #[trigger] apply.args@[i]),
        ensures
            f32_to_u64_proc_step(old(self).model(), apply.args@, offset, final(self).model(), result_view(r)),
            final(self).loop_stack@ == old(self).loop_stack@,
            final(self).compile_options == old(self).compile_options,
            final(self).builtins == old(self).builtins,
            final(self).wf(),
    {
        if apply.args.len() != 1 {
            return Err(arity_error("f32_to_u64", "1 argument", apply.args.len()));
        }
        let ghost m0 = self.model();
        let r1 = self.load_f32_proc_argument_into_register(&apply.args[0], "xmm0");
        let ghost m1 = self.model();
        match r1 {
            Err(e) => {
                assert(asm_f32_argument(m0, apply.args@[0], "xmm0"@, m1, Err(e@)));
                return Err(e);
            },
            Ok(()) => {},
        }
        emit(&mut self.output, "cvttss2si rax, xmm0");
        self.emit_store_u64(offset, "rax");
        proof {
            assert(self.output@ =~= m1.frame.x.out + (line("cvttss2si rax, xmm0"@) + store_u64(offset, "rax"@)));
            assert(self.model() == append_out(m1, line("cvttss2si rax, xmm0"@) + store_u64(offset, "rax"@)));
            assert(asm_f32_argument(m0, apply.args@[0], "xmm0"@, m1, Ok(())));
        }
        Ok(())
    }

    /// `#let x = __u64_to_f32 a;`: the integer converted to a float.
    pub fn compile_u64_to_f32_let_proc(&mut self, apply: &ProcTermApply, offset: i32) -> (r: Result<(), CompileError>)
        ensures
            final(self).appended(
                old(self),
                u64_proc_unary_code(old(self).frame().vars, apply.args@, "u64_to_f32"@, "    cvtsi2ss xmm0, rax\n"@ + store_f32(offset)).0,
            ),
            result_view(r) == u64_proc_unary_code(
                old(self).frame().vars,
                apply.args@,
                "u64_to_f32"@,
                "    cvtsi2ss xmm0, rax\n"@ + store_f32(offset),
            ).1,
    {
        self.u64_proc_unary(apply, offset, "u64_to_f32", "    cvtsi2ss xmm0, rax\n", true)
    }

    /// `#let x = __u64 a;`: the operand stored as it is.
    pub fn compile_u64_let_proc(&mut self, apply: &ProcTermApply, offset: i32) -> (r: Result<(), CompileError>)
        ensures
            final(self).appended(old(self), u64_proc_unary_code(old(self).frame().vars, apply.args@, "__u64"@, ""@ + store_u64(offset, "rax"@)).0),
            result_view(r) == u64_proc_unary_code(old(self).frame().vars, apply.args@, "__u64"@, ""@ + store_u64(offset, "rax"@)).1,
    {
        self.u64_proc_unary(apply, offset, "__u64", "", false)
    }

    /// `#let x = __f32 literal;`: the literal's bits stored into the 4-byte slot at `offset`.
    pub fn compile_f32_let_proc(&mut self, apply: &ProcTermApply, offset: i32) -> (r: Result<(), CompileError>)
        ensures
            final(self).appended(old(self), f32_value_let_code(apply.args@, offset).0),
            result_view(r) == f32_value_let_code(apply.args@, offset).1,
    {
        if apply.args.len() != 1 {
            assert(self.output@ =~= old(self).output@ + Seq::<char>::empty());
            return Err(arity_error("__f32", "1 argument", apply.args.len()));
        }
        match &apply.args[0] {
            ProcTerm::Number(num) => {
                let bits = match num.float_bits {
                    Some(b) => b,
                    None => 0,
                };
                let hex = hex8_text(bits);
                let a = join2("mov eax, ", hex.as_str());
                emit(&mut self.output, a.as_str());
                let d = dslot_text(offset);
                emit_mov(&mut self.output, d.as_str(), "eax");
                assert(self.output@ =~= old(self).output@ + f32_value_let_code(apply.args@, offset).0);
                Ok(())
            },
            _ => {
                assert(self.output@ =~= old(self).output@ + Seq::<char>::empty());
                Err(unsupported("__f32 expects numeric literal, got: ", proc_term_kind_text(&apply.args[0])))
            },
        }
    }

    /// `#let x = __ctaid_x;` on the CPU: block index 0.
    pub fn compile_ctaid_x_let_proc(&mut self, offset: i32) -> (r: Result<(), CompileError>)
        ensures
            final(self).appended(old(self), store_u64(offset, "0"@)),
            r is Ok,
    {
        self.emit_store_u64(offset, "0");
        Ok(())
    }

    /// `#let x = __ntid_x;` on the CPU: one thread per block.
    pub fn compile_ntid_x_let_proc(&mut self, offset: i32) -> (r: Result<(), CompileError>)
        ensures
            final(self).appended(old(self), store_u64(offset, "1"@)),
            r is Ok,
    {
        self.emit_store_u64(offset, "1");
        Ok(())
    }

    /// `#let x = __tid_x;` on the CPU: thread index 0.
    pub fn compile_tid_x_let_proc(&mut self, offset: i32) -> (r: Result<(), CompileError>)
        ensures
            final(self).appended(old(self), store_u64(offset, "0"@)),
            r is Ok,
    {
        self.emit_store_u64(offset, "0");
        Ok(())
    }
}

} // verus!
