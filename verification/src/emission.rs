use vstd::prelude::*;

use crate::codegen::ArrayInfo;
use crate::lowering::{
    apply_c, assign_c, constructor_code, deref_c, f32_let, f32_operands, field_assign_c, if_c, let_c, let_mut_c,
    load_arg, load_f32_arg, loop_c, one_operand, soa_allocation, soa_fields, stmt_c, stmts_c, term_c,
    u64_mod_let, u64_operands, Code, Env, Frame, XState,
};
use crate::syntax::{
    ProcTerm, ProcTermApply, ProcTermConstructorCall, ProcTermDereference, ProcTermIf, Statement,
    StatementAssign, StatementFieldAssign, StatementLet, StatementLetMut, StatementLoop, Statements,
};

verus! {

// Compiling only appends: the code written before a construct is compiled stays, as a
// prefix, in the code written after it, whether the construct compiles or fails.

pub(crate) proof fn lemma_prefix_trans(a: Seq<char>, b: Seq<char>, c: Seq<char>)
    requires
        a.is_prefix_of(b),
        b.is_prefix_of(c),
    ensures
        a.is_prefix_of(c),
{
    assert forall|i: int| 0 <= i < a.len() implies c.subrange(0, a.len() as int)[i] == a[i] by {
        assert(a[i] == b.subrange(0, a.len() as int)[i]);
        assert(b[i] == c.subrange(0, b.len() as int)[i]);
    }
    assert(c.subrange(0, a.len() as int) =~= a);
}

pub(crate) proof fn lemma_prefix_add(a: Seq<char>, s: Seq<char>)
    ensures
        a.is_prefix_of(a + s),
{
    assert((a + s).subrange(0, a.len() as int) =~= a);
}

pub(crate) proof fn lemma_prefix_refl(a: Seq<char>)
    ensures
        a.is_prefix_of(a),
{
    assert(a.subrange(0, a.len() as int) =~= a);
}

proof fn lemma_soa_fields(
    name: Seq<char>,
    names: Seq<Seq<char>>,
    types: Seq<Seq<char>>,
    size: Seq<char>,
    with_var: bool,
    out: Seq<char>,
    offset: i32,
    vars: Map<Seq<char>, i32>,
    i: int,
)
    ensures
        out.is_prefix_of(soa_fields(name, names, types, size, with_var, out, offset, vars, i).out),
    decreases names.len() - i,
{
    if i < 0 || i >= names.len() {
        lemma_prefix_refl(out);
    } else {
        let body = crate::lowering::soa_field_body(names[i], types[i], size, with_var);
        if offset > i32::MAX - 8 {
            lemma_prefix_add(out, body);
        } else {
            let off = (offset + 8) as i32;
            let ptr = name + "_"@ + names[i] + "_ptr"@;
            let out2 = out + body + crate::codegen::line("mov "@ + crate::codegen::slot(off) + ", rax  # Store "@ + ptr);
            assert(out2 == out + (body + crate::codegen::line("mov "@ + crate::codegen::slot(off) + ", rax  # Store "@ + ptr)));
            lemma_prefix_add(out, body + crate::codegen::line("mov "@ + crate::codegen::slot(off) + ", rax  # Store "@ + ptr));
            lemma_soa_fields(name, names, types, size, with_var, out2, off, vars.insert(ptr, off), i + 1);
            lemma_prefix_trans(out, out2, soa_fields(name, names, types, size, with_var, out2, off, vars.insert(ptr, off), i + 1).out);
        }
    }
}

proof fn lemma_soa_allocation(
    name: Seq<char>,
    info: ArrayInfo,
    size: Seq<char>,
    with_var: bool,
    out: Seq<char>,
    offset: i32,
    vars: Map<Seq<char>, i32>,
)
    ensures
        out.is_prefix_of(soa_allocation(name, info, size, with_var, out, offset, vars).out),
{
    let head = crate::lowering::soa_head(name, info.field_names@.len(), with_var);
    if offset > i32::MAX - 8 {
        lemma_prefix_add(out, head);
    } else {
        let off = (offset + 8) as i32;
        let start = out + head + crate::lowering::soa_size_store(off, name, size);
        assert(start == out + (head + crate::lowering::soa_size_store(off, name, size)));
        lemma_prefix_add(out, head + crate::lowering::soa_size_store(off, name, size));
        let fields = soa_fields(
            name,
            crate::lowering::names_of(info),
            crate::lowering::types_of(info),
            size,
            with_var,
            start,
            off,
            vars.insert(name + "_size"@, off),
            0,
        );
        lemma_soa_fields(
            name,
            crate::lowering::names_of(info),
            crate::lowering::types_of(info),
            size,
            with_var,
            start,
            off,
            vars.insert(name + "_size"@, off),
            0,
        );
        lemma_prefix_trans(out, start, fields.out);
        lemma_prefix_add(fields.out, crate::lowering::soa_tail(name, with_var));
        lemma_prefix_trans(out, fields.out, fields.out + crate::lowering::soa_tail(name, with_var));
    }
}

proof fn lemma_constructor_code(
    arrays: Map<Seq<char>, ArrayInfo>,
    c: ProcTermConstructorCall,
    var: Option<Seq<char>>,
    out: Seq<char>,
    offset: i32,
    vars: Map<Seq<char>, i32>,
)
    ensures
        out.is_prefix_of(constructor_code(arrays, c, var, out, offset, vars).out),
{
    lemma_prefix_refl(out);
    if crate::codegen::contains_text(crate::lowering::constructor_name(c), "::new_with_size"@) && arrays.contains_key(
        c.array_type@,
    ) {
        let size = crate::lowering::size_operand(c, vars);
        lemma_prefix_add(out, size.0);
        match size.1 {
            Err(_) => {},
            Ok(operand) => {
                let name = match var {
                    Some(n) => n,
                    None => c.array_type@,
                };
                lemma_soa_allocation(name, arrays[c.array_type@], operand, var is Some, out + size.0, offset, vars);
                lemma_prefix_trans(
                    out,
                    out + size.0,
                    soa_allocation(name, arrays[c.array_type@], operand, var is Some, out + size.0, offset, vars).out,
                );
            },
        }
    }
}

proof fn lemma_load_arg(vars: Map<Seq<char>, i32>, c: Code, arg: ProcTerm, reg: Seq<char>)
    ensures
        c.out.is_prefix_of(load_arg(vars, c, arg, reg).code.out),
    decreases arg, 0nat,
{
    lemma_prefix_refl(c.out);
    match arg {
        ProcTerm::Number(n) => lemma_prefix_add(c.out, crate::syscall::mov(reg, crate::lowering::number_text(n))),
        ProcTerm::Variable(v) => if vars.contains_key(v.variable@) {
            lemma_prefix_add(c.out, crate::syscall::mov(reg, crate::codegen::slot(vars[v.variable@])));
        },
        ProcTerm::Paren(p) => lemma_load_arg(vars, c, *p.proc_term, reg),
        ProcTerm::Dereference(d) => {
            let x = XState { out: c.out, varr: Map::empty(), labels: c.labels };
            let e = crate::lowering::bare_env(Map::empty());
            lemma_term_c(e, vars, Map::empty(), x, *d.term);
            let inner = term_c(e, vars, Map::empty(), x, *d.term);
            lemma_prefix_add(inner.state.out, crate::syscall::mov(reg, "qword ptr [rax]"@));
            lemma_prefix_trans(c.out, inner.state.out, inner.state.out + crate::syscall::mov(reg, "qword ptr [rax]"@));
        },
        _ => {},
    }
}

proof fn lemma_load_f32_arg(
    arrays: Map<Seq<char>, ArrayInfo>,
    vars: Map<Seq<char>, i32>,
    x: XState,
    arg: ProcTerm,
    reg: Seq<char>,
)
    ensures
        x.out.is_prefix_of(load_f32_arg(arrays, vars, x, arg, reg).state.out),
    decreases arg, 0nat,
{
    lemma_prefix_refl(x.out);
    match arg {
        ProcTerm::Number(n) => {
            let bits: u32 = match n.suffix_float_bits {
                Some(b) => b,
                None => 0,
            };
            lemma_prefix_add(
                x.out,
                crate::codegen::line("mov eax, "@ + crate::compile_text::hex8(bits)) + crate::codegen::line(
                    "movd "@ + reg + ", eax"@,
                ),
            );
        },
        ProcTerm::Variable(v) => if vars.contains_key(v.variable@) {
            lemma_prefix_add(
                x.out,
                crate::codegen::line("movss "@ + reg + ", "@ + crate::lowering::dslot(vars[v.variable@])),
            );
        },
        ProcTerm::Paren(p) => lemma_load_f32_arg(arrays, vars, x, *p.proc_term, reg),
        ProcTerm::Dereference(d) => {
            let e = crate::lowering::bare_env(arrays);
            lemma_term_c(e, vars, Map::empty(), x, *d.term);
            let inner = term_c(e, vars, Map::empty(), x, *d.term);
            let tail = crate::codegen::line("movss "@ + reg + ", dword ptr [rax]"@);
            lemma_prefix_add(inner.state.out, tail);
            lemma_prefix_trans(x.out, inner.state.out, inner.state.out + tail);
        },
        _ => {},
    }
}

proof fn lemma_u64_operands(vars: Map<Seq<char>, i32>, c: Code, a: ProcTermApply, name: Seq<char>)
    ensures
        c.out.is_prefix_of(u64_operands(vars, c, a, name).code.out),
    decreases a, 0nat,
{
    lemma_prefix_refl(c.out);
    if a.args@.len() == 2 {
        lemma_load_arg(vars, c, a.args@[0], "rax"@);
        let first = load_arg(vars, c, a.args@[0], "rax"@);
        if first.result is Ok {
            lemma_load_arg(vars, first.code, a.args@[1], "rbx"@);
            lemma_prefix_trans(c.out, first.code.out, load_arg(vars, first.code, a.args@[1], "rbx"@).code.out);
        }
    }
}

proof fn lemma_f32_operands(
    arrays: Map<Seq<char>, ArrayInfo>,
    vars: Map<Seq<char>, i32>,
    x: XState,
    a: ProcTermApply,
    name: Seq<char>,
)
    ensures
        x.out.is_prefix_of(f32_operands(arrays, vars, x, a, name).state.out),
    decreases a, 0nat,
{
    lemma_prefix_refl(x.out);
    if a.args@.len() == 2 {
        lemma_load_f32_arg(arrays, vars, x, a.args@[0], "xmm0"@);
        let first = load_f32_arg(arrays, vars, x, a.args@[0], "xmm0"@);
        if first.result is Ok {
            lemma_load_f32_arg(arrays, vars, first.state, a.args@[1], "xmm1"@);
            lemma_prefix_trans(
                x.out,
                first.state.out,
                load_f32_arg(arrays, vars, first.state, a.args@[1], "xmm1"@).state.out,
            );
        }
    }
}

proof fn lemma_one_operand(
    arrays: Map<Seq<char>, ArrayInfo>,
    vars: Map<Seq<char>, i32>,
    x: XState,
    a: ProcTermApply,
    name: Seq<char>,
    float: bool,
)
    ensures
        x.out.is_prefix_of(one_operand(arrays, vars, x, a, name, float).state.out),
    decreases a, 0nat,
{
    lemma_prefix_refl(x.out);
    if a.args@.len() == 1 {
        if float {
            lemma_load_f32_arg(arrays, vars, x, a.args@[0], "xmm0"@);
        } else {
            lemma_load_arg(vars, crate::lowering::code_of(x), a.args@[0], "rax"@);
        }
    }
}

proof fn lemma_then(a: Seq<char>, b: Seq<char>, s: Seq<char>)
    requires
        a.is_prefix_of(b),
    ensures
        a.is_prefix_of(b + s),
{
    lemma_prefix_add(b, s);
    lemma_prefix_trans(a, b, b + s);
}

proof fn lemma_apply_c(e: Env, vars: Map<Seq<char>, i32>, x: XState, a: ProcTermApply)
    ensures
        x.out.is_prefix_of(apply_c(e, vars, x, a).state.out),
    decreases a, 1nat,
{
    lemma_prefix_refl(x.out);
    match *a.f {
        ProcTerm::Variable(v) => if e.builtins.contains_key(v.variable@) {
            let b = e.builtins[v.variable@]@;
            if b == "syscall"@ {
                lemma_prefix_add(x.out, crate::syscall::syscall_code(a.args@, vars).0);
            } else if crate::lowering::u64_tail(b) is Some {
                lemma_u64_operands(vars, crate::lowering::code_of(x), a, b);
                let ops = u64_operands(vars, crate::lowering::code_of(x), a, b);
                lemma_then(x.out, ops.code.out, crate::lowering::u64_tail(b)->0);
            } else if crate::lowering::f32_instruction(b) is Some {
                lemma_f32_operands(e.arrays, vars, x, a, b);
                let ops = f32_operands(e.arrays, vars, x, a, b);
                lemma_then(
                    x.out,
                    ops.state.out,
                    crate::codegen::line(crate::lowering::f32_instruction(b)->0) + crate::lowering::f32_result_tail(),
                );
            } else if b == "f32_to_u64"@ {
                lemma_one_operand(e.arrays, vars, x, a, b, true);
                let ops = one_operand(e.arrays, vars, x, a, b, true);
                lemma_then(x.out, ops.state.out, crate::codegen::line("cvttss2si rax, xmm0"@));
            } else if b == "u64_to_f32"@ {
                lemma_one_operand(e.arrays, vars, x, a, b, false);
                let ops = one_operand(e.arrays, vars, x, a, b, false);
                lemma_then(
                    x.out,
                    ops.state.out,
                    crate::codegen::line("cvtsi2ss xmm0, rax"@) + crate::lowering::f32_result_tail(),
                );
            } else if b == "u64"@ {
                lemma_one_operand(e.arrays, vars, x, a, b, false);
            } else if b == "f32"@ {
                lemma_prefix_add(x.out, crate::lowering::f32_literal(a).0);
            }
        } else {
            let args = crate::lowering::call_arguments(a.args@, vars, 0);
            lemma_prefix_add(x.out, args.0);
            lemma_prefix_add(x.out, args.0 + crate::codegen::line("call "@ + v.variable@));
        },
        _ => {},
    }
}

/// Compiling a procedure term only appends to the code.
pub proof fn lemma_term_c(e: Env, vars: Map<Seq<char>, i32>, refs: Map<Seq<char>, String>, x: XState, t: ProcTerm)
    ensures
        x.out.is_prefix_of(term_c(e, vars, refs, x, t).state.out),
    decreases t, 0nat,
{
    lemma_prefix_refl(x.out);
    match t {
        ProcTerm::Apply(a) => lemma_apply_c(e, vars, x, a),
        ProcTerm::Variable(v) => if vars.contains_key(v.variable@) {
            lemma_prefix_add(x.out, crate::syscall::mov("rax"@, crate::codegen::slot(vars[v.variable@])));
        },
        ProcTerm::Number(n) => lemma_prefix_add(x.out, crate::syscall::mov("rax"@, crate::lowering::number_text(n))),
        ProcTerm::FieldAccess(fa) => {
            lemma_prefix_add(x.out, crate::lowering::field_access_code(e.arrays, vars, x.varr, fa).0);
        },
        ProcTerm::ConstructorCall(c) => {
            lemma_constructor_code(e.arrays, c, None, x.out, 0, Map::empty());
        },
        ProcTerm::Dereference(d) => lemma_deref_c(e, vars, refs, x, d),
        ProcTerm::If(i) => lemma_if_c(e, vars, refs, x, i, None),
        ProcTerm::Paren(p) => lemma_term_c(e, vars, refs, x, *p.proc_term),
        ProcTerm::Unit(_) => {},
    }
}

proof fn lemma_deref_c(e: Env, vars: Map<Seq<char>, i32>, refs: Map<Seq<char>, String>, x: XState, d: ProcTermDereference)
    ensures
        x.out.is_prefix_of(deref_c(e, vars, refs, x, d).state.out),
    decreases d, 0nat,
{
    lemma_term_c(e, vars, refs, x, *d.term);
    let inner = term_c(e, vars, refs, x, *d.term);
    lemma_then(x.out, inner.state.out, crate::lowering::deref_load(e.arrays, inner.state.varr, *d.term));
}

proof fn lemma_if_c(
    e: Env,
    vars: Map<Seq<char>, i32>,
    refs: Map<Seq<char>, String>,
    x: XState,
    i: ProcTermIf,
    brk: Option<Seq<char>>,
)
    ensures
        x.out.is_prefix_of(if_c(e, vars, refs, x, i, brk).state.out),
    decreases i, 0nat,
{
    let labels = crate::lowering::if_labels(x.labels, brk is Some);
    let else_label = labels.0;
    let end_label = labels.1;
    let local = Frame { vars, refs, offset: 0, x: XState { out: x.out, varr: x.varr, labels: labels.2 } };
    lemma_stmts_c(e, local, *i.condition, brk);
    let cond = stmts_c(e, local, *i.condition, brk);
    if cond.result is Ok {
        let jump = crate::codegen::line("cmp rax, 0"@) + crate::codegen::line(
            "je "@ + if i.else_clause is Some {
                else_label
            } else {
                end_label
            },
        );
        let after_cond = crate::lowering::emit_x(cond.frame.x, jump);
        lemma_then(x.out, cond.frame.x.out, jump);
        let body_frame = Frame { vars: cond.frame.vars, refs: cond.frame.refs, offset: 0, x: after_cond };
        lemma_stmts_c(e, body_frame, *i.then_body, brk);
        let then_part = stmts_c(e, body_frame, *i.then_body, brk);
        lemma_prefix_trans(x.out, after_cond.out, then_part.frame.x.out);
        if then_part.result is Ok {
            match i.else_clause {
                None => lemma_then(x.out, then_part.frame.x.out, end_label + ":\n"@),
                Some(el) => {
                    let mid = crate::codegen::line("jmp "@ + end_label) + else_label + ":\n"@;
                    let before_else = crate::lowering::emit_x(then_part.frame.x, mid);
                    lemma_then(x.out, then_part.frame.x.out, mid);
                    let else_frame = Frame { vars: cond.frame.vars, refs: cond.frame.refs, offset: 0, x: before_else };
                    lemma_stmts_c(e, else_frame, *el.else_body, brk);
                    let else_part = stmts_c(e, else_frame, *el.else_body, brk);
                    lemma_prefix_trans(x.out, before_else.out, else_part.frame.x.out);
                    lemma_then(x.out, else_part.frame.x.out, end_label + ":\n"@);
                },
            }
        }
    }
}

/// Compiling statements only appends to the code.
pub proof fn lemma_stmts_c(e: Env, f: Frame, ss: Statements, brk: Option<Seq<char>>)
    ensures
        f.x.out.is_prefix_of(stmts_c(e, f, ss, brk).frame.x.out),
    decreases ss, 0nat,
{
    lemma_prefix_refl(f.x.out);
    match ss {
        Statements::Then(th) => {
            lemma_stmt_c(e, f, *th.head, brk);
            let head = stmt_c(e, f, *th.head, brk);
            if head.result is Ok {
                lemma_stmts_c(e, head.frame, *th.tail, brk);
                lemma_prefix_trans(f.x.out, head.frame.x.out, stmts_c(e, head.frame, *th.tail, brk).frame.x.out);
            }
        },
        Statements::Statement(s) => lemma_stmt_c(e, f, *s, brk),
        Statements::Nil => {},
    }
}

/// Compiling a statement only appends to the code.
pub proof fn lemma_stmt_c(e: Env, f: Frame, s: Statement, brk: Option<Seq<char>>)
    ensures
        f.x.out.is_prefix_of(stmt_c(e, f, s, brk).frame.x.out),
    decreases s, if brk is Some { 1nat } else { 0nat },
{
    lemma_prefix_refl(f.x.out);
    match brk {
        Some(l) => match s {
            Statement::Break(_) => lemma_prefix_add(f.x.out, crate::codegen::line("jmp "@ + l)),
            Statement::Expr(ProcTerm::If(i)) => lemma_if_c(e, f.vars, f.refs, f.x, i, brk),
            _ => lemma_stmt_c(e, f, s, None),
        },
        None => match s {
            Statement::Let(l) => lemma_let_c(e, f, l),
            Statement::LetMut(l) => lemma_let_mut_c(e, f, l),
            Statement::Assign(a) => lemma_assign_c(e, f, a),
            Statement::FieldAssign(fa) => lemma_field_assign_c(e, f, fa),
            Statement::Expr(t) => lemma_term_c(e, f.vars, f.refs, f.x, t),
            Statement::Return(r) => lemma_term_c(e, f.vars, f.refs, f.x, *r.value),
            Statement::Loop(l) => lemma_loop_c(e, f, l),
            _ => {},
        },
    }
}

proof fn lemma_let_c(e: Env, f: Frame, l: StatementLet)
    ensures
        f.x.out.is_prefix_of(let_c(e, f, l).frame.x.out),
    decreases l, 0nat,
{
    lemma_prefix_refl(f.x.out);
    if f.offset <= i32::MAX - 8 {
        let off = (f.offset + 8) as i32;
        let name = l.variable@;
        lemma_term_c(e, f.vars, f.refs, f.x, *l.value);
        let r = term_c(e, f.vars, f.refs, f.x, *l.value);
        lemma_then(f.x.out, r.state.out, crate::syscall::mov(crate::codegen::slot(off), "rax"@));
        match *l.value {
            ProcTerm::ConstructorCall(c) => {
                lemma_constructor_code(e.arrays, c, Some(name), f.x.out, off, f.vars);
            },
            ProcTerm::Apply(a) => match *a.f {
                ProcTerm::Variable(v) => if e.builtins.contains_key(v.variable@) && crate::lowering::f32_instruction(
                    e.builtins[v.variable@]@,
                ) is Some {
                    lemma_f32_let(e.arrays, f.vars, f.x, a, e.builtins[v.variable@]@, off);
                } else if e.builtins.contains_key(v.variable@) && e.builtins[v.variable@]@ == "u64_mod"@ {
                    lemma_u64_mod_let(f.vars, crate::lowering::code_of(f.x), a, off);
                },
                _ => {},
            },
            ProcTerm::Number(n) => {
                lemma_prefix_add(f.x.out, crate::syscall::mov(crate::codegen::slot(off), crate::lowering::number_text(n)));
            },
            _ => {},
        }
    }
}

proof fn lemma_f32_let(
    arrays: Map<Seq<char>, ArrayInfo>,
    vars: Map<Seq<char>, i32>,
    x: XState,
    a: ProcTermApply,
    b: Seq<char>,
    offset: i32,
)
    ensures
        x.out.is_prefix_of(f32_let(arrays, vars, x, a, b, offset).state.out),
    decreases a, 1nat,
{
    lemma_f32_operands(arrays, vars, x, a, b);
    let ops = f32_operands(arrays, vars, x, a, b);
    if ops.result is Ok {
        match crate::lowering::f32_instruction(b) {
            None => {},
            Some(ins) => lemma_then(
                x.out,
                ops.state.out,
                crate::codegen::line(ins) + crate::codegen::line("movss "@ + crate::lowering::dslot(offset) + ", xmm0"@),
            ),
        }
    }
}

proof fn lemma_u64_mod_let(vars: Map<Seq<char>, i32>, c: Code, a: ProcTermApply, offset: i32)
    ensures
        c.out.is_prefix_of(u64_mod_let(vars, c, a, offset).code.out),
    decreases a, 1nat,
{
    lemma_u64_operands(vars, c, a, "u64_mod"@);
    let ops = u64_operands(vars, c, a, "u64_mod"@);
    lemma_then(
        c.out,
        ops.code.out,
        crate::codegen::line("xor rdx, rdx"@) + crate::codegen::line("div rbx"@) + crate::syscall::mov(
            crate::codegen::slot(offset),
            "rdx"@,
        ),
    );
}

proof fn lemma_let_mut_c(e: Env, f: Frame, l: StatementLetMut)
    ensures
        f.x.out.is_prefix_of(let_mut_c(e, f, l).frame.x.out),
    decreases l, 0nat,
{
    lemma_prefix_refl(f.x.out);
    if f.offset <= i32::MAX - 8 {
        let value_offset = (f.offset + 8) as i32;
        lemma_term_c(e, f.vars, f.refs, f.x, *l.value);
        let r = term_c(e, f.vars, f.refs, f.x, *l.value);
        if r.result is Ok {
            let store = crate::syscall::mov(crate::codegen::slot(value_offset), "rax"@);
            lemma_then(f.x.out, r.state.out, store);
            if value_offset <= i32::MAX - 8 {
                let ref_offset = (value_offset + 8) as i32;
                lemma_then(
                    f.x.out,
                    r.state.out + store,
                    crate::codegen::line("lea rax, "@ + crate::codegen::slot(value_offset)) + crate::syscall::mov(
                        crate::codegen::slot(ref_offset),
                        "rax"@,
                    ),
                );
            }
        }
    }
}

proof fn lemma_assign_c(e: Env, f: Frame, a: StatementAssign)
    ensures
        f.x.out.is_prefix_of(assign_c(e, f, a).frame.x.out),
    decreases a, 0nat,
{
    lemma_prefix_refl(f.x.out);
    if f.vars.contains_key(a.variable@) {
        lemma_term_c(e, f.vars, f.refs, f.x, *a.value);
        let r = term_c(e, f.vars, f.refs, f.x, *a.value);
        lemma_then(
            f.x.out,
            r.state.out,
            crate::syscall::mov("rbx"@, crate::codegen::slot(f.vars[a.variable@])) + crate::codegen::line(
                "mov qword ptr [rbx], rax"@,
            ),
        );
    }
}

proof fn lemma_field_assign_c(e: Env, f: Frame, fa: StatementFieldAssign)
    ensures
        f.x.out.is_prefix_of(field_assign_c(e, f, fa).frame.x.out),
    decreases fa, 0nat,
{
    let addr = crate::lowering::field_access_code(e.arrays, f.vars, f.x.varr, fa.field_access);
    let x1 = crate::lowering::emit_x(f.x, addr.0);
    lemma_prefix_add(f.x.out, addr.0);
    if addr.1 is Ok {
        let x2 = crate::lowering::emit_x(x1, crate::codegen::line("mov rbx, rax"@));
        lemma_then(f.x.out, x1.out, crate::codegen::line("mov rbx, rax"@));
        lemma_term_c(e, f.vars, f.refs, x2, *fa.value);
        let r = term_c(e, f.vars, f.refs, x2, *fa.value);
        lemma_prefix_trans(f.x.out, x2.out, r.state.out);
        lemma_then(f.x.out, r.state.out, crate::codegen::line("mov qword ptr [rbx], rax"@));
    }
}

proof fn lemma_loop_c(e: Env, f: Frame, l: StatementLoop)
    ensures
        f.x.out.is_prefix_of(loop_c(e, f, l).frame.x.out),
    decreases l, 0nat,
{
    let id = crate::text::decimal(f.x.labels.loop_labels as nat);
    let start = "loop_start_"@ + id;
    let end = "loop_end_"@ + id;
    let labels = crate::codegen::LabelCounters {
        if_labels: f.x.labels.if_labels,
        loop_labels: crate::codegen::next_label(f.x.labels.loop_labels),
        break_if_labels: f.x.labels.break_if_labels,
    };
    let f1 = crate::lowering::with_x(f, XState { out: f.x.out + (start + ":\n"@), varr: f.x.varr, labels });
    assert(f.x.out + start + ":\n"@ == f.x.out + (start + ":\n"@));
    lemma_prefix_add(f.x.out, start + ":\n"@);
    lemma_stmts_c(e, f1, *l.body, Some(end));
    let body = stmts_c(e, f1, *l.body, Some(end));
    lemma_prefix_trans(f.x.out, f1.x.out, body.frame.x.out);
    lemma_then(f.x.out, body.frame.x.out, crate::codegen::line("jmp "@ + start) + end + ":\n"@);
}

} // verus!
