use vstd::prelude::*;
use vstd::string::*;

use crate::codegen::{emit, join2, join4, line, result_view, slot, slot_text, CompileError, SCompileError};
use crate::compile_text::{trim_all, trim_end_all};
use crate::names::NameMap;
use crate::syntax::{proc_term_kind, proc_term_kind_text, ProcTerm};

verus! {

broadcast use vstd::std_specs::vec::group_vec_axioms;

/// A number literal without its `u64` suffix.
pub open spec fn u64_literal(s: Seq<char>) -> Seq<char> {
    trim_all(s, "u64"@)
}

/// The registers that carry the six operands of a system call.
pub open spec fn syscall_register(i: int) -> Seq<char> {
    if i == 0 {
        "rax"@
    } else if i == 1 {
        "rdi"@
    } else if i == 2 {
        "rsi"@
    } else if i == 3 {
        "rdx"@
    } else if i == 4 {
        "r10"@
    } else {
        "r8"@
    }
}

pub fn syscall_register_text(i: usize) -> (r: &'static str)
    requires
        i < 6,
    ensures
        r@ == syscall_register(i as int),
{
    proof {
        reveal_strlit("rax");
        reveal_strlit("rdi");
        reveal_strlit("rsi");
        reveal_strlit("rdx");
        reveal_strlit("r10");
        reveal_strlit("r8");
    }
    if i == 0 {
        "rax"
    } else if i == 1 {
        "rdi"
    } else if i == 2 {
        "rsi"
    } else if i == 3 {
        "rdx"
    } else if i == 4 {
        "r10"
    } else {
        "r8"
    }
}

/// `mov reg, value`.
pub open spec fn mov(reg: Seq<char>, value: Seq<char>) -> Seq<char> {
    line("mov "@ + reg + ", "@ + value)
}

pub fn emit_mov(out: &mut String, reg: &str, value: &str)
    ensures
        final(out)@ == old(out)@ + mov(reg@, value@),
{
    let s = join4("mov ", reg, ", ", value);
    proof {
        reveal_strlit("mov ");
        reveal_strlit(", ");
    }
    emit(out, s.as_str());
}

/// The message for a name that no variable has.
pub open spec fn unknown_variable(name: Seq<char>) -> Seq<char> {
    "Unknown variable: "@ + name
}

/// The code that loads the system call operands `args[i..]`, and whether they are all
/// numbers or known variables.
pub open spec fn syscall_operands(args: Seq<ProcTerm>, vars: Map<Seq<char>, i32>, i: int) -> (Seq<char>, Result<
    (),
    SCompileError,
>)
    decreases args.len() - i,
{
    if i < 0 || i >= args.len() {
        (Seq::empty(), Ok(()))
    } else {
        match args[i] {
            ProcTerm::Number(n) => {
                let rest = syscall_operands(args, vars, i + 1);
                (mov(syscall_register(i), u64_literal(n.number@)) + rest.0, rest.1)
            },
            ProcTerm::Variable(v) => if vars.contains_key(v.variable@) {
                let rest = syscall_operands(args, vars, i + 1);
                (mov(syscall_register(i), slot(vars[v.variable@])) + rest.0, rest.1)
            } else {
                (Seq::empty(), Err(SCompileError::UnsupportedConstruct(unknown_variable(v.variable@))))
            },
            _ => (Seq::empty(), Err(SCompileError::InvalidSyscall)),
        }
    }
}

/// The code of a system call with operands `args`, and its outcome.
pub open spec fn syscall_code(args: Seq<ProcTerm>, vars: Map<Seq<char>, i32>) -> (Seq<char>, Result<
    (),
    SCompileError,
>) {
    if args.len() != 6 {
        (Seq::empty(), Err(SCompileError::InvalidSyscall))
    } else {
        let ops = syscall_operands(args, vars, 0);
        match ops.1 {
            Ok(_) => (ops.0 + line("syscall"@), Ok(())),
            Err(e) => (ops.0, Err(e)),
        }
    }
}

/// The code that loads a numeral or a variable into `reg`; an unknown variable loads 0.
pub open spec fn syscall_argument(arg: ProcTerm, reg: Seq<char>, vars: Map<Seq<char>, i32>) -> (Seq<char>, Result<
    (),
    SCompileError,
>) {
    match arg {
        ProcTerm::Number(n) => (mov(reg, u64_literal(n.number@)), Ok(())),
        ProcTerm::Variable(v) => if vars.contains_key(v.variable@) {
            (mov(reg, slot(vars[v.variable@])), Ok(()))
        } else {
            (mov(reg, "0"@), Ok(()))
        },
        _ => (
            Seq::empty(),
            Err(SCompileError::UnsupportedConstruct("Unsupported argument type: "@ + proc_term_kind(arg))),
        ),
    }
}

/// Compiles system calls: six operands go into `rax`, `rdi`, `rsi`, `rdx`, `r10`, `r8`.
pub struct SyscallCompiler;

impl SyscallCompiler {
    pub fn compile_proc_syscall(args: &[ProcTerm], variables: &NameMap<i32>, output: &mut String) -> (r: Result<
        (),
        CompileError,
    >)
        ensures
            final(output)@ == old(output)@ + syscall_code(args@, variables@).0,
            result_view(r) == syscall_code(args@, variables@).1,
    {
        if args.len() != 6 {
            return Err(CompileError::InvalidSyscall);
        }
        let ghost start = output@;
        let mut i: usize = 0;
        while i < 6
            invariant
                args@.len() == 6,
                i <= 6,
                start == old(output)@,
                syscall_operands(args@, variables@, 0).1 == syscall_operands(args@, variables@, i as int).1,
                syscall_operands(args@, variables@, 0).0 == (output@.subrange(start.len() as int, output@.len() as int))
                    + syscall_operands(args@, variables@, i as int).0,
                output@.len() >= start.len(),
                output@.subrange(0, start.len() as int) == start,
            decreases 6 - i,
        {
            let ghost before = output@;
            match &args[i] {
                ProcTerm::Number(num) => {
                    let value = Self::parse_number(num.number.as_str());
                    emit_mov(output, syscall_register_text(i), value.as_str());
                },
                ProcTerm::Variable(var) => {
                    match variables.get(var.variable.as_str()) {
                        Some(offset) => {
                            let s = slot_text(*offset);
                            emit_mov(output, syscall_register_text(i), s.as_str());
                        },
                        None => {
                            proof {
                                assert(output@.subrange(start.len() as int, output@.len() as int) =~= syscall_operands(
                                    args@,
                                    variables@,
                                    0,
                                ).0);
                                assert(output@ =~= start + syscall_code(args@, variables@).0);
                            }
                            return Err(
                                CompileError::UnsupportedConstruct(join2("Unknown variable: ", var.variable.as_str())),
                            );
                        },
                    }
                },
                _ => {
                    proof {
                        assert(output@ =~= start + syscall_code(args@, variables@).0);
                    }
                    return Err(CompileError::InvalidSyscall);
                },
            }
            proof {
                reveal_strlit("Unknown variable: ");
                assert(output@.subrange(start.len() as int, output@.len() as int) =~= before.subrange(
                    start.len() as int,
                    before.len() as int,
                ) + output@.subrange(before.len() as int, output@.len() as int));
            }
            i = i + 1;
        }
        proof {
            reveal_strlit("syscall");
        }
        emit(output, "syscall");
        proof {
            assert(output@ =~= start + syscall_code(args@, variables@).0);
        }
        Ok(())
    }

    /// A numeral without its `u64` suffix.
    pub fn parse_number(number_str: &str) -> (r: String)
        ensures
            r@ == u64_literal(number_str@),
    {
        proof {
            reveal_strlit("u64");
        }
        trim_end_all(number_str, "u64")
    }

    pub fn load_proc_argument_into_register(
        arg: &ProcTerm,
        register: &str,
        variables: &NameMap<i32>,
        output: &mut String,
    ) -> (r: Result<(), CompileError>)
        ensures
            final(output)@ == old(output)@ + syscall_argument(*arg, register@, variables@).0,
            result_view(r) == syscall_argument(*arg, register@, variables@).1,
    {
        match arg {
            ProcTerm::Number(number) => {
                let value = Self::parse_number(number.number.as_str());
                emit_mov(output, register, value.as_str());
                Ok(())
            },
            ProcTerm::Variable(var) => {
                match variables.get(var.variable.as_str()) {
                    Some(offset) => {
                        let s = slot_text(*offset);
                        emit_mov(output, register, s.as_str());
                    },
                    None => {
                        proof {
                            reveal_strlit("0");
                        }
                        emit_mov(output, register, "0");
                    },
                }
                Ok(())
            },
            _ => {
                proof {
                    reveal_strlit("Unsupported argument type: ");
                }
                Err(
                    CompileError::UnsupportedConstruct(
                        join2("Unsupported argument type: ", proc_term_kind_text(arg)),
                    ),
                )
            },
        }
    }
}

} // verus!
