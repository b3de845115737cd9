use neco::codegen::CompileError;
use neco::compiler::{compile_break, compile_loop, compile_to_assembly, AssemblyCompiler, CompileOptions};
use neco::syntax::{
    File, Item, ItemDefinition, ItemEntrypoint, ItemProc, ItemProcBlock, ItemUseBuiltin, ProcTerm, ProcTermApply,
    ProcTermIf, ProcTermNumber, ProcTermVariable, Statement, StatementBreak, StatementCallPtx, StatementLet,
    StatementLetMut, StatementLoop, Statements, StatementsThen, Term, TermArrowDep, TermArrowNodep, TermUnit,
    TermVariable, TermVariableTyped,
};
use neco::utils;

fn num(s: &str) -> ProcTerm {
    ProcTerm::Number(ProcTermNumber {
        number: s.to_string(),
        float_bits: None,
        suffix_float_bits: None,
        trimmed_float_bits: None,
    })
}

fn var(s: &str) -> ProcTerm {
    ProcTerm::Variable(ProcTermVariable { variable: s.to_string() })
}

fn apply(f: &str, args: Vec<ProcTerm>) -> ProcTerm {
    ProcTerm::Apply(ProcTermApply { f: Box::new(var(f)), args })
}

fn unit_ty() -> Term {
    Term::ArrowNodep(TermArrowNodep { from: Box::new(Term::Unit(TermUnit {})), to: Box::new(Term::Unit(TermUnit {})) })
}

fn dep(name: &str, to: Term) -> Term {
    Term::ArrowDep(TermArrowDep {
        from: TermVariableTyped {
            variable: name.to_string(),
            ty: Box::new(Term::Variable(TermVariable { variable: "u64".to_string() })),
        },
        to: Box::new(to),
    })
}

fn then(head: Statement, tail: Statements) -> Statements {
    Statements::Then(StatementsThen { head: Box::new(head), tail: Box::new(tail) })
}

fn unsupported_message(r: Result<(), CompileError>) -> String {
    match r {
        Err(CompileError::UnsupportedConstruct(m)) => m,
        other => panic!("expected an unsupported construct, got {:?}", other),
    }
}

fn exit_program() -> File {
    File {
        items: vec![
            Item::Entrypoint(ItemEntrypoint { name: "main".to_string() }),
            Item::UseBuiltin(ItemUseBuiltin { name: "__syscall".to_string(), builtin_name: "syscall".to_string() }),
            Item::Proc(ItemProc {
                name: "main".to_string(),
                ty: unit_ty(),
                proc_block: ItemProcBlock {
                    statements: Statements::Statement(Box::new(Statement::Expr(apply(
                        "__syscall",
                        vec![num("231u64"), num("42u64"), num("0"), num("0"), num("0"), num("0")],
                    )))),
                },
            }),
        ],
    }
}

#[test]
fn test_exit_program_assembly_text() {
    let code = compile_to_assembly(&exit_program(), CompileOptions { use_ptx: false }).unwrap();
    let expected = ".intel_syntax noprefix\n.section .text\n.globl _start\n\nmain:\n    mov rax, 231\n    mov rdi, 42\n    mov rsi, 0\n    mov rdx, 0\n    mov r10, 0\n    mov r8, 0\n    syscall\n    ret\n\n_start:\n    call main\n    mov rax, 60\n    mov rdi, 0\n    syscall\n";
    assert_eq!(code, expected);
}

#[test]
fn test_exit_program_with_gpu_host() {
    let code = compile_to_assembly(&exit_program(), CompileOptions { use_ptx: true }).unwrap();
    assert!(code.starts_with(".intel_syntax noprefix\n\n    .text\n    .globl\t__cu_device\n"));
    assert!(code.contains(".globl main\n\nmain:\n    mov rax, 231\n"));
    assert!(code.contains("main:\n    push rbp\n\n    # cuInit(0)\n"));
    assert!(code.ends_with("    call    cuCtxCreate_v2@PLT\n    call main\n    mov rax, 60\n    mov rdi, 0\n    syscall\n    pop rbp\n"));
}

#[test]
fn test_missing_entrypoint() {
    let file = File { items: vec![] };
    match compile_to_assembly(&file, CompileOptions { use_ptx: false }) {
        Err(CompileError::EntrypointNotFound) => {},
        other => panic!("unexpected {:?}", other),
    }
}

#[test]
fn test_definition_item_is_unsupported() {
    let mut c = AssemblyCompiler::new(CompileOptions { use_ptx: false });
    let r = c.compile_item(&Item::Definition(ItemDefinition { name: "f".to_string() }));
    assert_eq!(unsupported_message(r), "Definition");
}

#[test]
fn test_proc_with_two_parameters() {
    let mut c = AssemblyCompiler::new(CompileOptions { use_ptx: false });
    let proc = ItemProc {
        name: "add2".to_string(),
        ty: dep("a", dep("b", Term::Unit(TermUnit {}))),
        proc_block: ItemProcBlock { statements: Statements::Nil },
    };
    c.compile_proc(&proc).unwrap();
    assert_eq!(
        c.output,
        "add2:\n    sub rsp, 16\n    mov qword ptr [rsp + 0], rdi\n    mov qword ptr [rsp + 8], rsi\n    add rsp, 16\n    ret\n\n"
    );
    assert!(!c.variables.contains_key("a"));
}

#[test]
fn test_proc_with_three_parameters_fails() {
    let mut c = AssemblyCompiler::new(CompileOptions { use_ptx: false });
    let proc = ItemProc {
        name: "f".to_string(),
        ty: dep("a", dep("b", dep("c", Term::Unit(TermUnit {})))),
        proc_block: ItemProcBlock { statements: Statements::Nil },
    };
    assert_eq!(unsupported_message(c.compile_proc(&proc)), "More than 2 parameters not supported");
}

#[test]
fn test_proc_stack_space_counts_variables() {
    let mut c = AssemblyCompiler::new(CompileOptions { use_ptx: false });
    let body = then(
        Statement::Let(StatementLet { variable: "x".to_string(), value: Box::new(num("5u64")) }),
        Statements::Nil,
    );
    let proc = ItemProc { name: "main".to_string(), ty: unit_ty(), proc_block: ItemProcBlock { statements: body } };
    c.compile_proc(&proc).unwrap();
    assert!(c.output.starts_with("main:\n    sub rsp, 8\n"));
    assert!(c.output.ends_with("    add rsp, 8\n    ret\n\n"));
}

#[test]
fn test_break_outside_and_inside_loop() {
    let mut c = AssemblyCompiler::new(CompileOptions { use_ptx: false });
    assert_eq!(unsupported_message(compile_break(&mut c, &StatementBreak {})), "break statement outside of loop");
    assert_eq!(c.output, "");
    c.loop_stack.push("loop_end_7".to_string());
    compile_break(&mut c, &StatementBreak {}).unwrap();
    assert_eq!(c.output, "    jmp loop_end_7\n");
}

#[test]
fn test_loop_labels() {
    let mut c = AssemblyCompiler::new(CompileOptions { use_ptx: false });
    compile_loop(&mut c, &StatementLoop { body: Box::new(Statements::Nil) }).unwrap();
    assert_eq!(c.output, "loop_start_1:\n    jmp loop_start_1\nloop_end_1:\n");
    assert!(c.loop_stack.is_empty());
    compile_loop(&mut c, &StatementLoop { body: Box::new(Statements::Nil) }).unwrap();
    assert!(c.output.ends_with("loop_start_2:\n    jmp loop_start_2\nloop_end_2:\n"));
}

#[test]
fn test_proc_if_on_u64_eq() {
    let mut c = AssemblyCompiler::new(CompileOptions { use_ptx: false });
    c.builtins.insert("__u64_eq".to_string(), "u64_eq".to_string());
    let cond = Statements::Statement(Box::new(Statement::Expr(apply("__u64_eq", vec![num("1"), num("2")]))));
    let if_expr = ProcTermIf { condition: Box::new(cond), then_body: Box::new(Statements::Nil), else_clause: None };
    neco::compiler::compile_proc_if(&mut c, &if_expr).unwrap();
    assert_eq!(c.output, "    mov rax, 1\n    mov rbx, 2\n    cmp rax, rbx\n    jne if_end_1\nif_end_1:\n");
}

#[test]
fn test_proc_variable_and_syscall_errors() {
    let mut c = AssemblyCompiler::new(CompileOptions { use_ptx: false });
    let r = c.compile_proc_variable(&ProcTermVariable { variable: "nope".to_string() });
    assert_eq!(unsupported_message(r), "Unknown variable: nope");
    match c.compile_proc_syscall(&[num("1")]) {
        Err(CompileError::InvalidSyscall) => {},
        other => panic!("unexpected {:?}", other),
    }
    c.variables.insert("x".to_string(), 16);
    c.compile_proc_variable(&ProcTermVariable { variable: "x".to_string() }).unwrap();
    assert_eq!(c.output, "    mov rax, qword ptr [rsp + 8]\n");
}

#[test]
fn test_load_argument_from_rsp_frame() {
    let mut c = AssemblyCompiler::new(CompileOptions { use_ptx: false });
    c.variables.insert("x".to_string(), 8);
    c.load_proc_argument_into_register(&var("x"), "rdi").unwrap();
    c.load_proc_argument_into_register(&var("y"), "rsi").unwrap();
    c.load_proc_argument_into_register(&num("7u64"), "rdx").unwrap();
    assert_eq!(c.output, "    mov rdi, qword ptr [rsp + 0]\n    mov rsi, 0\n    mov rdx, 7\n");
    assert_eq!(c.parse_number("12u64"), "12");
}

#[test]
fn test_stack_slot_counts() {
    let body = then(
        Statement::Let(StatementLet { variable: "x".to_string(), value: Box::new(num("1")) }),
        then(
            Statement::LetMut(StatementLetMut {
                variable: "y".to_string(),
                reference_variable: "y_ref".to_string(),
                value: Box::new(num("2")),
            }),
            Statements::Statement(Box::new(Statement::Expr(num("3")))),
        ),
    );
    assert_eq!(AssemblyCompiler::count_let_variables_in_statements(&body), 3);
    assert_eq!(utils::count_let_variables_in_statements(&body), 3);
    assert_eq!(utils::count_let_variables_in_proc_term(&num("3")), 0);
}

#[test]
fn test_ptx_call_detection() {
    let call = Statement::CallPtx(StatementCallPtx {
        function_name: "k".to_string(),
        args: vec![],
        grid_dim_x: "1".to_string(),
        grid_dim_y: "1".to_string(),
        grid_dim_z: "1".to_string(),
        block_dim_x: "1".to_string(),
        block_dim_y: "1".to_string(),
        block_dim_z: "1".to_string(),
    });
    let inside_if = ProcTerm::If(ProcTermIf {
        condition: Box::new(Statements::Nil),
        then_body: Box::new(Statements::Statement(Box::new(call))),
        else_clause: None,
    });
    assert!(utils::has_ptx_calls_in_proc_term(&inside_if));
    let body = then(Statement::Let(StatementLet { variable: "x".to_string(), value: Box::new(num("1")) }), Statements::Statement(Box::new(Statement::Expr(inside_if))));
    assert!(utils::has_ptx_calls_in_statements(&body));
    assert!(!utils::has_ptx_calls_in_statement(&Statement::Expr(num("1"))));
}
