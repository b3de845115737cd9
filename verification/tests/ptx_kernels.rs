use neco::codegen::CompileError;
use neco::ptx::{extract_proc_parameters, PtxCompiler};
use neco::syntax::{
    ItemProc, ItemProcBlock, ProcTerm, ProcTermApply, ProcTermFieldAccess, ProcTermNumber, ProcTermVariable,
    Statement, StatementBreak, StatementFieldAssign, StatementLet, Statements, StatementsThen, Term, TermApply,
    TermArrowDep, TermArrowNodep, TermNumber, TermUnit, TermVariable, TermVariableTyped,
};

fn num(s: &str) -> ProcTerm {
    ProcTerm::Number(ProcTermNumber {
        number: s.to_string(),
        float_bits: None,
        suffix_float_bits: None,
        trimmed_float_bits: None,
    })
}

fn float(s: &str, bits: u32) -> ProcTerm {
    ProcTerm::Number(ProcTermNumber {
        number: s.to_string(),
        float_bits: Some(bits),
        suffix_float_bits: None,
        trimmed_float_bits: None,
    })
}

fn var(s: &str) -> ProcTerm {
    ProcTerm::Variable(ProcTermVariable { variable: s.to_string() })
}

fn apply(f: &str, args: Vec<ProcTerm>) -> ProcTerm {
    ProcTerm::Apply(ProcTermApply { f: Box::new(var(f)), args })
}

fn tvar(s: &str) -> Term {
    Term::Variable(TermVariable { variable: s.to_string() })
}

fn dep(name: &str, to: Term) -> Term {
    Term::ArrowDep(TermArrowDep {
        from: TermVariableTyped { variable: name.to_string(), ty: Box::new(tvar("Points")) },
        to: Box::new(to),
    })
}

fn message<T: std::fmt::Debug>(r: Result<T, CompileError>) -> String {
    match r {
        Err(CompileError::UnsupportedConstruct(m)) => m,
        other => panic!("expected an unsupported construct, got {:?}", other),
    }
}

fn kernel_compiler() -> PtxCompiler {
    let mut c = PtxCompiler::new();
    c.builtins.insert("__tid_x".to_string(), "tid_x".to_string());
    c.builtins.insert("__u64_add".to_string(), "u64_add".to_string());
    c.builtins.insert("__u64_to_f32".to_string(), "u64_to_f32".to_string());
    c.builtins.insert("__f32".to_string(), "f32".to_string());
    c.builtins.insert("__foo".to_string(), "foo".to_string());
    c
}

#[test]
fn test_ptx_kernel_text() {
    let mut c = kernel_compiler();
    let store = Statement::FieldAssign(StatementFieldAssign {
        field_access: ProcTermFieldAccess {
            object: "ps".to_string(),
            field: "r".to_string(),
            index: Some(Box::new(var("i"))),
        },
        value: Box::new(num("7")),
    });
    let body = Statements::Then(StatementsThen {
        head: Box::new(Statement::Let(StatementLet { variable: "i".to_string(), value: Box::new(var("__tid_x")) })),
        tail: Box::new(Statements::Statement(Box::new(store))),
    });
    let proc = ItemProc {
        name: "f".to_string(),
        ty: dep("ps", Term::Unit(TermUnit {})),
        proc_block: ItemProcBlock { statements: body },
    };
    c.compile_ptx_proc(&proc).unwrap();
    let expected = "    \t// .globl\tf\n.visible .entry f(\n    .param .u64 ps_r,\n    .param .u64 ps_g,\n    .param .u64 ps_b\n)\n{\n    .reg .b64 %rd<100>;\n    .reg .b32 %r<100>;\n    .reg .b32 %f<100>;\n\n    ld.param.u64 %rd1, [ps_r];\n    ld.param.u64 %rd2, [ps_g];\n    ld.param.u64 %rd3, [ps_b];\n    cvta.to.global.u64 %rd1, %rd1;\n    cvta.to.global.u64 %rd2, %rd2;\n    cvta.to.global.u64 %rd3, %rd3;\n\n    mov.u32 %r1, %tid.x;\n    cvt.u64.u32 %rd4, %r1;\n    mov.u64 %rd5, 7;\n    mul.lo.u64 %rd6, %rd4, 8;\n    add.u64 %rd7, %rd1, %rd6;\n    st.global.u64 [%rd7], %rd5;\n    ret;\n}\n\n";
    assert_eq!(c.ptx_output, expected);
    assert_eq!(c.ptx_functions, vec!["f".to_string()]);
    assert_eq!(c.variables.len(), 0);
}

#[test]
fn test_ptx_registers_are_fresh() {
    let mut c = PtxCompiler::new();
    assert_eq!(c.allocate_ptx_u64_register(), "%rd4");
    assert_eq!(c.allocate_ptx_u64_register(), "%rd5");
    assert_eq!(c.allocate_ptx_u32_register(), "%r1");
    assert_eq!(c.allocate_ptx_f32_register(), "%f1");
    assert_eq!(c.allocate_ptx_f32_register(), "%f2");
}

#[test]
fn test_ptx_arithmetic_and_conversions() {
    let mut c = kernel_compiler();
    let sum = c.compile_ptx_proc_term(&apply("__u64_add", vec![num("2"), num("40")])).unwrap();
    assert_eq!(sum, "%rd6");
    let f = c.compile_ptx_proc_term(&apply("__u64_to_f32", vec![var("__tid_x")])).unwrap();
    assert_eq!(f, "%f1");
    let lit = c.compile_ptx_proc_term(&apply("__f32", vec![float("1.5", 0x3fc00000)])).unwrap();
    assert_eq!(lit, "%f2");
    assert_eq!(
        c.ptx_output,
        "    mov.u64 %rd4, 2;\n    mov.u64 %rd5, 40;\n    add.u64 %rd6, %rd4, %rd5;\n    mov.u32 %r1, %tid.x;\n    cvt.u64.u32 %rd7, %r1;\n    cvt.rn.f32.u64 %f1, %rd7;\n    mov.b32 %f2, 0x3fc00000;\n"
    );
}

#[test]
fn test_ptx_errors() {
    let mut c = kernel_compiler();
    assert_eq!(message(c.compile_ptx_proc_term(&apply("__u64_add", vec![num("1")]))), "__u64_add requires two arguments");
    assert_eq!(message(c.compile_ptx_proc_term(&apply("__foo", vec![]))), "Unknown PTX builtin: foo");
    assert_eq!(message(c.compile_ptx_proc_term(&num("12abc"))), "Invalid number: 12abc");
    assert_eq!(message(c.compile_ptx_proc_term(&var("q"))), "Undefined PTX variable: q");
    assert_eq!(message(c.compile_ptx_term(&tvar("q"))), "Undefined variable: q");
    assert_eq!(message(c.compile_ptx_proc_term(&apply("__f32", vec![var("q")]))), "f32 requires a number literal");
    assert_eq!(message(c.compile_ptx_statement(&Statement::Break(StatementBreak {}))), "PTX statement not implemented: Break");
    assert_eq!(c.ptx_output, "");
}

#[test]
fn test_ptx_type_language_terms() {
    let mut c = kernel_compiler();
    let t = Term::Apply(TermApply {
        f: Box::new(tvar("__u64_add")),
        args: vec![
            Term::Number(TermNumber { number: "3".to_string(), float_bits: None, suffix_float_bits: None }),
            tvar("__tid_x"),
        ],
    });
    assert_eq!(c.compile_ptx_term(&t).unwrap(), "%rd6");
    assert_eq!(c.ptx_output, "    mov.u64 %rd4, 3;\n    mov.u32 %r1, %tid.x;\n    cvt.u64.u32 %rd5, %r1;\n    add.u64 %rd6, %rd4, %rd5;\n");
}

#[test]
fn test_ptx_kernel_with_two_parameters_fails() {
    let mut c = kernel_compiler();
    let proc = ItemProc {
        name: "g".to_string(),
        ty: dep("a", dep("b", Term::Unit(TermUnit {}))),
        proc_block: ItemProcBlock { statements: Statements::Nil },
    };
    assert_eq!(message(c.compile_ptx_proc(&proc)), "PTX kernels with multiple parameters not yet supported");
    assert_eq!(c.ptx_functions, vec!["g".to_string()]);
}

#[test]
fn test_parameter_names() {
    let ty = Term::ArrowNodep(TermArrowNodep {
        from: Box::new(tvar("nat")),
        to: Box::new(dep("x", Term::ArrowNodep(TermArrowNodep {
            from: Box::new(Term::Unit(TermUnit {})),
            to: Box::new(Term::Unit(TermUnit {})),
        }))),
    });
    assert_eq!(extract_proc_parameters(&ty), vec!["param_0".to_string(), "x".to_string()]);
}

#[test]
fn default_ptx_compiler_starts_like_new() {
    let mut c = PtxCompiler::default();
    assert_eq!(c.allocate_ptx_u64_register(), "%rd4");
    assert_eq!(c.allocate_ptx_u32_register(), "%r1");
    assert_eq!(c.allocate_ptx_f32_register(), "%f1");
    assert!(c.ptx_functions.is_empty());
}
