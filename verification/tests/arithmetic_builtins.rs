use neco::codegen::CompileError;
use neco::compiler::{AssemblyCompiler, CompileOptions};
use neco::syntax::{ProcTerm, ProcTermApply, ProcTermNumber, ProcTermVariable, Term, TermApply, TermNumber, TermVariable};

fn num(s: &str) -> ProcTerm {
    ProcTerm::Number(ProcTermNumber {
        number: s.to_string(),
        float_bits: None,
        suffix_float_bits: None,
        trimmed_float_bits: None,
    })
}

fn f32_num(s: &str, bits: u32) -> ProcTerm {
    ProcTerm::Number(ProcTermNumber {
        number: s.to_string(),
        float_bits: Some(bits),
        suffix_float_bits: Some(bits),
        trimmed_float_bits: Some(bits),
    })
}

fn papply(args: Vec<ProcTerm>) -> ProcTermApply {
    ProcTermApply { f: Box::new(ProcTerm::Variable(ProcTermVariable { variable: "__op".to_string() })), args }
}

fn tnum(s: &str) -> Term {
    Term::Number(TermNumber { number: s.to_string(), float_bits: None, suffix_float_bits: None })
}

fn tapply(args: Vec<Term>) -> TermApply {
    TermApply { f: Box::new(Term::Variable(TermVariable { variable: "__op".to_string() })), args }
}

fn compiler() -> AssemblyCompiler {
    AssemblyCompiler::new(CompileOptions { use_ptx: false })
}

fn message(r: Result<(), CompileError>) -> String {
    match r {
        Err(CompileError::UnsupportedConstruct(m)) => m,
        other => panic!("expected an unsupported construct, got {:?}", other),
    }
}

#[test]
fn test_u64_add_let_proc_text() {
    let mut c = compiler();
    c.compile_u64_add_let_proc(&papply(vec![num("40u64"), num("2")]), 16).unwrap();
    assert_eq!(c.output, "    mov rax, 40\n    mov rbx, 2\n    add rax, rbx\n    mov qword ptr [rbp - 8 - 8], rax\n");
}

#[test]
fn test_u64_mod_let_keeps_remainder() {
    let mut c = compiler();
    c.compile_u64_mod_let(&tapply(vec![tnum("142"), tnum("100")]), 16).unwrap();
    assert_eq!(c.output, "    mov rax, 142\n    mov rbx, 100\n    xor rdx, rdx\n    div rbx\n    mov qword ptr [rbp - 8 - 8], rdx\n");
}

#[test]
fn test_u64_assign_proc_variable_operand() {
    let mut c = compiler();
    c.variables.insert("x".to_string(), 8);
    c.compile_u64_sub_assign_proc(&papply(vec![ProcTerm::Variable(ProcTermVariable { variable: "x".to_string() }), num("1")]), 8).unwrap();
    assert_eq!(c.output, "    mov rax, qword ptr [rsp + 0]\n    mov rbx, 1\n    sub rax, rbx\n    mov qword ptr [rbp - 8 - 0], rax\n");
}

#[test]
fn test_f32_add_let_proc_text() {
    let mut c = compiler();
    c.compile_f32_add_let_proc(&papply(vec![f32_num("1.5f32", 0x3fc00000), f32_num("2.5f32", 0x40200000)]), 8).unwrap();
    assert_eq!(
        c.output,
        "    mov eax, 0x3fc00000\n    movd xmm0, eax\n    mov eax, 0x40200000\n    movd xmm1, eax\n    addss xmm0, xmm1\n    movss dword ptr [rbp - 8 - 0], xmm0\n"
    );
}

#[test]
fn test_f32_let_proc_text() {
    let mut c = compiler();
    c.compile_f32_let_proc(&papply(vec![f32_num("3.5", 0x40600000)]), 8).unwrap();
    assert_eq!(c.output, "    mov eax, 0x40600000\n    mov dword ptr [rbp - 8 - 0], eax\n");
}

#[test]
fn test_arity_errors() {
    let mut c = compiler();
    assert_eq!(message(c.compile_u64_add_let_proc(&papply(vec![num("1")]), 8)), "u64_add expects 2 arguments, got 1");
    assert_eq!(message(c.compile_f32_to_u64_let(&tapply(vec![]), 8)), "f32_to_u64 expects 1 argument, got 0");
    assert_eq!(message(c.compile_u64_let_proc(&papply(vec![]), 8)), "__u64 expects 1 argument, got 0");
    assert_eq!(message(c.compile_f32_let_proc(&papply(vec![ProcTerm::Variable(ProcTermVariable { variable: "x".to_string() })]), 8)), "__f32 expects numeric literal, got: Variable");
    assert_eq!(c.output, "");
}

#[test]
fn test_f32_operand_needs_suffix() {
    let mut c = compiler();
    assert_eq!(message(c.load_f32_proc_argument_into_register(&num("3"), "xmm0")), "Expected f32 number, got: 3");
    assert_eq!(message(c.load_f32_argument_into_register(&tnum("3"), "xmm0")), "Expected f32 number, got: 3");
}

#[test]
fn test_thread_index_on_cpu() {
    let mut c = compiler();
    c.compile_ctaid_x_let_proc(16).unwrap();
    c.compile_ntid_x_let_proc(24).unwrap();
    c.compile_tid_x_let_proc(32).unwrap();
    assert_eq!(
        c.output,
        "    mov qword ptr [rbp - 8 - 8], 0\n    mov qword ptr [rbp - 8 - 16], 1\n    mov qword ptr [rbp - 8 - 24], 0\n"
    );
}

#[test]
fn test_u64_to_f32_let_proc_text() {
    let mut c = compiler();
    c.compile_u64_to_f32_let_proc(&papply(vec![num("3")]), 8).unwrap();
    assert_eq!(c.output, "    mov rax, 3\n    cvtsi2ss xmm0, rax\n    movss dword ptr [rbp - 8 - 0], xmm0\n");
}
