use vstd::prelude::*;

use crate::syntax::{ProcTerm, Statement, Statements};

verus! {

/// The stack slots a statement's variables take: one for a `let`, two for a `let mut`,
/// which keeps a reference beside its value.
pub open spec fn slots(st: Statement) -> nat {
    match st {
        Statement::Let(_) => 1,
        Statement::LetMut(_) => 2,
        _ => 0,
    }
}

pub open spec fn slots_all(ss: Statements) -> nat
    decreases ss,
{
    match ss {
        Statements::Then(t) => slots(*t.head) + slots_all(*t.tail),
        Statements::Statement(b) => slots(*b),
        Statements::Nil => 0,
    }
}

/// The stack slots the variables of a statement sequence take.
pub fn count_let_variables_in_statements(statements: &Statements) -> (r: i32)
    requires
        slots_all(*statements) <= i32::MAX,
    ensures
        r == slots_all(*statements),
    decreases statements,
{
    match statements {
        Statements::Then(then) => count_let_variables_in_statement(&then.head) + count_let_variables_in_statements(
            &then.tail,
        ),
        Statements::Statement(statement) => count_let_variables_in_statement(statement),
        Statements::Nil => 0,
    }
}

pub fn count_let_variables_in_statement(statement: &Statement) -> (r: i32)
    ensures
        r == slots(*statement),
{
    match statement {
        Statement::Let(_) => 1,
        Statement::LetMut(_) => 2,
        Statement::Expr(proc_term) => count_let_variables_in_proc_term(proc_term),
        _ => 0,
    }
}

/// Expressions declare no variables.
pub fn count_let_variables_in_proc_term(_proc_term: &ProcTerm) -> (r: i32)
    ensures
        r == 0,
{
    0
}

/// Whether a statement sequence launches a GPU kernel, also inside conditionals.
pub open spec fn calls_ptx_all(ss: Statements) -> bool
    decreases ss, 0nat,
{
    match ss {
        Statements::Then(t) => calls_ptx(*t.head) || calls_ptx_all(*t.tail),
        Statements::Statement(b) => calls_ptx(*b),
        Statements::Nil => false,
    }
}

pub open spec fn calls_ptx(st: Statement) -> bool
    decreases st, 0nat,
{
    match st {
        Statement::CallPtx(_) => true,
        Statement::Expr(t) => calls_ptx_term(t),
        _ => false,
    }
}

pub open spec fn calls_ptx_term(t: ProcTerm) -> bool
    decreases t, 0nat,
{
    match t {
        ProcTerm::If(i) => calls_ptx_all(*i.then_body) || match i.else_clause {
            Some(e) => calls_ptx_all(*e.else_body),
            None => false,
        },
        _ => false,
    }
}

pub fn has_ptx_calls_in_statements(statements: &Statements) -> (r: bool)
    ensures
        r == calls_ptx_all(*statements),
    decreases statements, 0nat,
{
    match statements {
        Statements::Then(then) => has_ptx_calls_in_statement(&then.head) || has_ptx_calls_in_statements(&then.tail),
        Statements::Statement(statement) => has_ptx_calls_in_statement(statement),
        Statements::Nil => false,
    }
}

pub fn has_ptx_calls_in_statement(statement: &Statement) -> (r: bool)
    ensures
        r == calls_ptx(*statement),
    decreases statement, 0nat,
{
    match statement {
        Statement::CallPtx(_) => true,
        Statement::Expr(proc_term) => has_ptx_calls_in_proc_term(proc_term),
        _ => false,
    }
}

pub fn has_ptx_calls_in_proc_term(proc_term: &ProcTerm) -> (r: bool)
    ensures
        r == calls_ptx_term(*proc_term),
    decreases proc_term, 0nat,
{
    match proc_term {
        ProcTerm::If(if_expr) => has_ptx_calls_in_statements(&if_expr.then_body) || match &if_expr.else_clause {
            Some(else_clause) => has_ptx_calls_in_statements(&else_clause.else_body),
            None => false,
        },
        _ => false,
    }
}

} // verus!
