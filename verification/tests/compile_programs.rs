// Whole programs compiled to assembly; each tree is the program of the test of the same
// name, written out as the parser produces it.
use neco::compiler::{compile_to_assembly, CompileOptions};
use neco::syntax::{
    File, Item, ItemEntrypoint, ItemProc, ItemProcBlock, ItemUseBuiltin, ProcTerm, ProcTermApply, ProcTermNumber,
    ProcTermVariable, Statement, StatementAssign, StatementLet, StatementLetMut, Statements, StatementsThen, Term,
    TermArrowDep, TermArrowNodep, TermUnit, TermVariable, TermVariableTyped,
};

fn num(s: &str) -> ProcTerm {
    let bits = |t: &str| t.parse::<f32>().ok().map(f32::to_bits);
    ProcTerm::Number(ProcTermNumber {
        number: s.to_string(),
        float_bits: bits(s),
        suffix_float_bits: s.strip_suffix("f32").and_then(bits),
        trimmed_float_bits: bits(s.trim_end_matches("f32")),
    })
}

fn var(s: &str) -> ProcTerm {
    ProcTerm::Variable(ProcTermVariable { variable: s.to_string() })
}

fn apply(f: &str, args: Vec<ProcTerm>) -> ProcTerm {
    ProcTerm::Apply(ProcTermApply { f: Box::new(var(f)), args })
}

fn let_(name: &str, value: ProcTerm) -> Statement {
    Statement::Let(StatementLet { variable: name.to_string(), value: Box::new(value) })
}

fn block(statements: Vec<Statement>) -> Statements {
    let mut out = Statements::Nil;
    for s in statements.into_iter().rev() {
        out = match out {
            Statements::Nil => Statements::Statement(Box::new(s)),
            tail => Statements::Then(StatementsThen { head: Box::new(s), tail: Box::new(tail) }),
        };
    }
    out
}

fn exit_with(code: ProcTerm) -> Statement {
    Statement::Expr(apply("__syscall", vec![var("syscall_id"), code, num("0u64"), num("0u64"), num("0u64"), num("0u64")]))
}

fn program(builtins: &[(&str, &str)], body: Vec<Statement>) -> File {
    let mut items = vec![Item::Entrypoint(ItemEntrypoint { name: "main".to_string() })];
    for (name, builtin) in builtins {
        items.push(Item::UseBuiltin(ItemUseBuiltin { name: name.to_string(), builtin_name: builtin.to_string() }));
    }
    items.push(Item::Proc(ItemProc {
        name: "main".to_string(),
        ty: Term::ArrowNodep(TermArrowNodep {
            from: Box::new(Term::Unit(TermUnit {})),
            to: Box::new(Term::Unit(TermUnit {})),
        }),
        proc_block: ItemProcBlock { statements: block(body) },
    }));
    File { items }
}

fn binary_program(builtin: &str, a: &str, b: &str) -> File {
    let name = format!("__{builtin}");
    program(
        &[("__syscall", "syscall"), (name.as_str(), builtin)],
        vec![
            let_("syscall_id", num("231u64")),
            let_("error_code", apply(&name, vec![num(a), num(b)])),
            exit_with(var("error_code")),
        ],
    )
}

fn f32_program(builtin: &str, a: &str, b: &str) -> File {
    let name = format!("__{builtin}");
    program(
        &[("__syscall", "syscall"), (name.as_str(), builtin), ("__f32_to_u64", "f32_to_u64")],
        vec![
            let_("syscall_id", num("231u64")),
            let_("result", apply(&name, vec![num(a), num(b)])),
            let_("error_code", apply("__f32_to_u64", vec![var("result")])),
            exit_with(var("error_code")),
        ],
    )
}

fn assemble(file: &File) -> String {
    compile_to_assembly(file, CompileOptions { use_ptx: false }).unwrap()
}

#[test]
fn test_compile_exit_42() {
    let file = program(
        &[("__syscall", "syscall")],
        vec![Statement::Expr(apply(
            "__syscall",
            vec![num("231u64"), num("42u64"), num("0u64"), num("0u64"), num("0u64"), num("0u64")],
        ))],
    );
    let assembly = assemble(&file);
    assert!(assembly.contains(".intel_syntax noprefix"));
    assert!(assembly.contains("mov rax, 231"));
    assert!(assembly.contains("mov rdi, 42"));
    assert!(assembly.contains("syscall"));
    assert!(assembly.contains("main:"));
    assert!(assembly.contains("_start:"));
}

#[test]
fn test_compile_add() {
    let assembly = assemble(&binary_program("u64_add", "40u64", "2u64"));
    assert!(assembly.contains(".intel_syntax noprefix"));
    assert!(assembly.contains("main:"));
    assert!(assembly.contains("_start:"));
    assert!(assembly.contains("sub rsp, 16"));
    assert!(assembly.contains("mov qword ptr [rbp - 8 - 0], 231"));
    assert!(assembly.contains("mov rax, 40"));
    assert!(assembly.contains("mov rbx, 2"));
    assert!(assembly.contains("add rax, rbx"));
    assert!(assembly.contains("mov qword ptr [rbp - 8 - 8], rax"));
    assert!(assembly.contains("syscall"));
}

#[test]
fn test_compile_sub() {
    let assembly = assemble(&binary_program("u64_sub", "50u64", "8u64"));
    assert!(assembly.contains(".intel_syntax noprefix"));
    assert!(assembly.contains("mov rax, 50"));
    assert!(assembly.contains("mov rbx, 8"));
    assert!(assembly.contains("sub rax, rbx"));
    assert!(assembly.contains("mov qword ptr [rbp - 8 - 8], rax"));
    assert!(assembly.contains("syscall"));
    assert!(assembly.contains("main:"));
    assert!(assembly.contains("_start:"));
}

#[test]
fn test_compile_mul() {
    let assembly = assemble(&binary_program("u64_mul", "6u64", "7u64"));
    assert!(assembly.contains(".intel_syntax noprefix"));
    assert!(assembly.contains("mov rax, 6"));
    assert!(assembly.contains("mov rbx, 7"));
    assert!(assembly.contains("imul rax, rbx"));
    assert!(assembly.contains("mov qword ptr [rbp - 8 - 8], rax"));
    assert!(assembly.contains("syscall"));
    assert!(assembly.contains("main:"));
    assert!(assembly.contains("_start:"));
}

#[test]
fn test_compile_div() {
    let assembly = assemble(&binary_program("u64_div", "84u64", "2u64"));
    assert!(assembly.contains(".intel_syntax noprefix"));
    assert!(assembly.contains("mov rax, 84"));
    assert!(assembly.contains("mov rbx, 2"));
    assert!(assembly.contains("xor rdx, rdx"));
    assert!(assembly.contains("div rbx"));
    assert!(assembly.contains("mov qword ptr [rbp - 8 - 8], rax"));
    assert!(assembly.contains("syscall"));
    assert!(assembly.contains("main:"));
    assert!(assembly.contains("_start:"));
}

#[test]
fn test_compile_mod() {
    let assembly = assemble(&binary_program("u64_mod", "142u64", "100u64"));
    assert!(assembly.contains(".intel_syntax noprefix"));
    assert!(assembly.contains("mov rax, 142"));
    assert!(assembly.contains("mov rbx, 100"));
    assert!(assembly.contains("xor rdx, rdx"));
    assert!(assembly.contains("div rbx"));
    assert!(assembly.contains("mov qword ptr [rbp - 8 - 8], rdx"));
    assert!(assembly.contains("syscall"));
    assert!(assembly.contains("main:"));
    assert!(assembly.contains("_start:"));
}

fn check_f32(assembly: &str, a_bits: &str, b_bits: &str, op: &str) {
    assert!(assembly.contains(".intel_syntax noprefix"));
    assert!(assembly.contains(&format!("mov eax, {a_bits}")));
    assert!(assembly.contains("movd xmm0, eax"));
    assert!(assembly.contains(&format!("mov eax, {b_bits}")));
    assert!(assembly.contains("movd xmm1, eax"));
    assert!(assembly.contains(&format!("{op} xmm0, xmm1")));
    assert!(assembly.contains("movss dword ptr [rbp - 8 - 8], xmm0"));
    assert!(assembly.contains("cvttss2si rax, xmm0"));
    assert!(assembly.contains("syscall"));
    assert!(assembly.contains("main:"));
    assert!(assembly.contains("_start:"));
}

#[test]
fn test_compile_add_f32() {
    let assembly = assemble(&f32_program("f32_add", "40.0f32", "2.0f32"));
    check_f32(&assembly, "0x42200000", "0x40000000", "addss");
}

#[test]
fn test_compile_sub_f32() {
    let assembly = assemble(&f32_program("f32_sub", "50.0f32", "8.0f32"));
    check_f32(&assembly, "0x42480000", "0x41000000", "subss");
}

#[test]
fn test_compile_mul_f32() {
    let assembly = assemble(&f32_program("f32_mul", "6.0f32", "7.0f32"));
    check_f32(&assembly, "0x40c00000", "0x40e00000", "mulss");
}

#[test]
fn test_compile_div_f32() {
    let assembly = assemble(&f32_program("f32_div", "84.0f32", "2.0f32"));
    check_f32(&assembly, "0x42a80000", "0x40000000", "divss");
}

#[test]
fn test_compile_let_mut() {
    let file = program(
        &[("__syscall", "syscall")],
        vec![
            let_("syscall_id", num("231u64")),
            Statement::LetMut(StatementLetMut {
                variable: "error_code".to_string(),
                reference_variable: "error_code_ref".to_string(),
                value: Box::new(num("0u64")),
            }),
            Statement::Assign(StatementAssign { variable: "error_code_ref".to_string(), value: Box::new(num("42u64")) }),
            exit_with(var("error_code")),
        ],
    );
    let assembly = assemble(&file);
    assert!(assembly.contains(".intel_syntax noprefix"));
    assert!(assembly.contains("main:"));
    assert!(assembly.contains("_start:"));
    assert!(assembly.contains("sub rsp, 24"));
    assert!(assembly.contains("mov qword ptr [rbp - 8 - 0], 231"));
    assert!(assembly.contains("mov qword ptr [rbp - 8 - 8], rax"));
    assert!(assembly.contains("lea rax, qword ptr [rbp - 8 - 8]"));
    assert!(assembly.contains("mov qword ptr [rbp - 8 - 16], rax"));
    assert!(assembly.contains("mov rbx, qword ptr [rbp - 8 - 16]"));
    assert!(assembly.contains("mov qword ptr [rbx], rax"));
    assert!(assembly.contains("syscall"));
}

#[test]
fn test_compile_proc_call() {
    let u64_ty = || Box::new(Term::Variable(TermVariable { variable: "u64".to_string() }));
    let f_ty = Term::ArrowDep(TermArrowDep {
        from: TermVariableTyped { variable: "x".to_string(), ty: u64_ty() },
        to: Box::new(Term::ArrowDep(TermArrowDep {
            from: TermVariableTyped { variable: "y".to_string(), ty: u64_ty() },
            to: u64_ty(),
        })),
    });
    let mut file = binary_program("u64_add", "1u64", "1u64");
    // main: #let error_code = f 40u64 2u64;
    if let Item::Proc(main) = &mut file.items[3] {
        main.proc_block = ItemProcBlock {
            statements: block(vec![
                let_("syscall_id", num("231u64")),
                let_("error_code", apply("f", vec![num("40u64"), num("2u64")])),
                exit_with(var("error_code")),
            ]),
        };
    }
    file.items.insert(
        3,
        Item::Proc(ItemProc {
            name: "f".to_string(),
            ty: f_ty,
            proc_block: ItemProcBlock { statements: block(vec![Statement::Expr(apply("__u64_add", vec![var("x"), var("y")]))]) },
        }),
    );
    let assembly = assemble(&file);
    assert!(assembly.contains(".intel_syntax noprefix"));
    assert!(assembly.contains("main:"));
    assert!(assembly.contains("f:"));
    assert!(assembly.contains("_start:"));
    assert!(assembly.contains("call f"));
    assert!(assembly.contains("ret"));
    assert!(assembly.contains("mov qword ptr [rbp - 8 - 0], 231"));
    assert!(assembly.contains("syscall"));
    assert!(assembly.contains("mov rdi, 40"));
    assert!(assembly.contains("mov rsi, 2"));
}

#[test]
fn compiled_program_is_header_items_and_trailer() {
    let assembly = assemble(&binary_program("u64_add", "40u64", "2u64"));
    assert!(assembly.starts_with(".intel_syntax noprefix\n.section .text\n.globl _start\n\n"));
    assert!(assembly.ends_with("_start:\n    call main\n    mov rax, 60\n    mov rdi, 0\n    syscall\n"));
}
