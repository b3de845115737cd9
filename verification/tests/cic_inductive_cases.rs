use std::rc::Rc;

use neco::global_environment::{ConstantDefinition, GlobalEnvironment};
use neco::id::{Id, IdGenerator};
use neco::inductive::{ConstructorDefinition, InductiveDefinition, InductiveEnvironment, Parameter};
use neco::local_context::LocalContext;
use neco::reduction::{normalize, reduce_step, whnf};
use neco::term::{
    term_eq, MatchBranch, Sort, Term, TermApplication, TermConstant, TermLambda, TermLetIn, TermMatch,
    TermProduct, TermSort, TermVariable,
};
use neco::typechecker::{check_type, infer_type, TypeError};

#[test]
fn inductive_test_test_bool_inductive_definition() {
    let mut g = IdGenerator::new();
    let mut env = GlobalEnvironment::new();
    let bool_id = g.generate_id();
    let true_id = g.generate_id();
    let false_id = g.generate_id();

    env.inductives
        .add_bool(bool_id, true_id, false_id)
        .unwrap();

    let bool_def = env.inductives.get_inductive(bool_id).unwrap();
    assert_eq!(bool_def.name, bool_id);
    assert_eq!(bool_def.constructors.len(), 2);
}

#[test]
fn inductive_test_test_bool_constructor_lookup() {
    let mut g = IdGenerator::new();
    let mut env = GlobalEnvironment::new();
    let bool_id = g.generate_id();
    let true_id = g.generate_id();
    let false_id = g.generate_id();

    env.inductives
        .add_bool(bool_id, true_id, false_id)
        .unwrap();

    let true_constr = env.inductives.get_constructor(true_id).unwrap();
    assert_eq!(true_constr.name, true_id);
    assert_eq!(true_constr.arity, 0);
}

#[test]
fn inductive_test_test_nat_inductive_definition() {
    let mut g = IdGenerator::new();
    let mut env = GlobalEnvironment::new();
    let nat_id = g.generate_id();
    let zero_id = g.generate_id();
    let succ_id = g.generate_id();

    env.inductives.add_nat(nat_id, zero_id, succ_id).unwrap();

    let nat_def = env.inductives.get_inductive(nat_id).unwrap();
    assert_eq!(nat_def.name, nat_id);
    assert_eq!(nat_def.constructors.len(), 2);
}

#[test]
fn inductive_test_test_nat_zero_constructor() {
    let mut g = IdGenerator::new();
    let mut env = GlobalEnvironment::new();
    let nat_id = g.generate_id();
    let zero_id = g.generate_id();
    let succ_id = g.generate_id();

    env.inductives.add_nat(nat_id, zero_id, succ_id).unwrap();

    let zero_constr = env.inductives.get_constructor(zero_id).unwrap();
    assert_eq!(zero_constr.name, zero_id);
    assert_eq!(zero_constr.arity, 0);
}

#[test]
fn inductive_test_test_nat_succ_constructor() {
    let mut g = IdGenerator::new();
    let mut env = GlobalEnvironment::new();
    let nat_id = g.generate_id();
    let zero_id = g.generate_id();
    let succ_id = g.generate_id();

    env.inductives.add_nat(nat_id, zero_id, succ_id).unwrap();

    let succ_constr = env.inductives.get_constructor(succ_id).unwrap();
    assert_eq!(succ_constr.name, succ_id);
    assert_eq!(succ_constr.arity, 1);
}

#[test]
fn inductive_test_test_list_inductive_definition() {
    let mut g = IdGenerator::new();
    let mut inductive_env = InductiveEnvironment::new();
    
    let list_id = g.generate_id();
    let nil_id = g.generate_id();
    let cons_id = g.generate_id();
    let a_param_id = g.generate_id();

    let type0 = Rc::new(Term::Sort(TermSort { sort: Sort::Type(0) }));
    let var_a = Rc::new(Term::Variable(TermVariable { id: a_param_id }));
    let list_type = Rc::new(Term::Constant(TermConstant { id: list_id }));

    let nil_type = list_type.clone();
    let nil_constr = ConstructorDefinition::new(nil_id, nil_type, 0);

    let cons_type = Rc::new(Term::Product(TermProduct {
        var: g.generate_id(),
        source: var_a.clone(),
        target: Rc::new(Term::Product(TermProduct {
            var: g.generate_id(),
            source: list_type.clone(),
            target: list_type,
        })),
    }));
    let cons_constr = ConstructorDefinition::new(cons_id, cons_type, 2);

    let list_def = InductiveDefinition::new(
        list_id,
        vec![Parameter {
            name: a_param_id,
            ty: type0,
        }],
        Rc::new(Term::Sort(TermSort { sort: Sort::Type(0) })),
        vec![nil_constr, cons_constr],
    );

    inductive_env.add_inductive(list_def).unwrap();

    let list_def = inductive_env.get_inductive(list_id).unwrap();
    assert_eq!(list_def.name, list_id);
    assert_eq!(list_def.parameters.len(), 1);
}

#[test]
fn inductive_test_test_list_constructor_count() {
    let mut g = IdGenerator::new();
    let mut inductive_env = InductiveEnvironment::new();
    
    let list_id = g.generate_id();
    let nil_id = g.generate_id();
    let cons_id = g.generate_id();
    let a_param_id = g.generate_id();

    let type0 = Rc::new(Term::Sort(TermSort { sort: Sort::Type(0) }));
    let var_a = Rc::new(Term::Variable(TermVariable { id: a_param_id }));
    let list_type = Rc::new(Term::Constant(TermConstant { id: list_id }));

    let nil_type = list_type.clone();
    let nil_constr = ConstructorDefinition::new(nil_id, nil_type, 0);

    let cons_type = Rc::new(Term::Product(TermProduct {
        var: g.generate_id(),
        source: var_a.clone(),
        target: Rc::new(Term::Product(TermProduct {
            var: g.generate_id(),
            source: list_type.clone(),
            target: list_type,
        })),
    }));
    let cons_constr = ConstructorDefinition::new(cons_id, cons_type, 2);

    let list_def = InductiveDefinition::new(
        list_id,
        vec![Parameter {
            name: a_param_id,
            ty: type0,
        }],
        Rc::new(Term::Sort(TermSort { sort: Sort::Type(0) })),
        vec![nil_constr, cons_constr],
    );

    inductive_env.add_inductive(list_def).unwrap();

    let list_def = inductive_env.get_inductive(list_id).unwrap();
    assert_eq!(list_def.constructors.len(), 2);
}

// A constructor applied to its arguments: the constant alone when there are none.
fn constructor(id: Id, args: Vec<Term>) -> Term {
    if args.is_empty() {
        Term::Constant(TermConstant { id })
    } else {
        Term::Application(TermApplication { f: Rc::new(Term::Constant(TermConstant { id })), args })
    }
}

fn case_of(scrutinee: Term, return_type: Id, branches: Vec<(Id, Vec<Id>, Term)>) -> Term {
    Term::Match(TermMatch {
        scrutinee: Rc::new(scrutinee),
        return_type: Rc::new(Term::Constant(TermConstant { id: return_type })),
        branches: branches
            .into_iter()
            .map(|(constructor_id, bound_vars, body)| MatchBranch { constructor_id, bound_vars, body: Rc::new(body) })
            .collect(),
    })
}

#[test]
fn inductive_test_test_bool_true_constructor_typing() {
    let mut g = IdGenerator::new();
    let mut env = GlobalEnvironment::new();
    let ctx = LocalContext::new();
    let bool_id = g.generate_id();
    let true_id = g.generate_id();
    let false_id = g.generate_id();
    env.inductives.add_bool(bool_id, true_id, false_id).unwrap();
    let true_constr = constructor(true_id, vec![]);
    let ty = infer_type(&ctx, &env, &true_constr).unwrap();
    assert!(term_eq(&ty, &Term::Constant(TermConstant { id: bool_id })));
}

#[test]
fn inductive_test_test_bool_false_constructor_typing() {
    let mut g = IdGenerator::new();
    let mut env = GlobalEnvironment::new();
    let ctx = LocalContext::new();
    let bool_id = g.generate_id();
    let true_id = g.generate_id();
    let false_id = g.generate_id();
    env.inductives.add_bool(bool_id, true_id, false_id).unwrap();
    let false_constr = constructor(false_id, vec![]);
    let ty = infer_type(&ctx, &env, &false_constr).unwrap();
    assert!(term_eq(&ty, &Term::Constant(TermConstant { id: bool_id })));
}

#[test]
fn inductive_test_test_case_reduction_true_branch() {
    let mut g = IdGenerator::new();
    let mut env = GlobalEnvironment::new();
    let bool_id = g.generate_id();
    let true_id = g.generate_id();
    let false_id = g.generate_id();
    env.inductives.add_bool(bool_id, true_id, false_id).unwrap();
    let true_constr = constructor(true_id, vec![]);
    let false_constr = constructor(false_id, vec![]);
    let case_expr = case_of(
        true_constr.clone(),
        bool_id,
        vec![(true_id, vec![], true_constr.clone()), (false_id, vec![], false_constr)],
    );
    let reduced = reduce_step(&case_expr).unwrap();
    assert!(term_eq(&reduced, &true_constr));
}

#[test]
fn inductive_test_test_case_reduction_false_branch() {
    let mut g = IdGenerator::new();
    let mut env = GlobalEnvironment::new();
    let bool_id = g.generate_id();
    let true_id = g.generate_id();
    let false_id = g.generate_id();
    env.inductives.add_bool(bool_id, true_id, false_id).unwrap();
    let true_constr = constructor(true_id, vec![]);
    let false_constr = constructor(false_id, vec![]);
    let case_expr = case_of(
        false_constr.clone(),
        bool_id,
        vec![(true_id, vec![], true_constr), (false_id, vec![], false_constr.clone())],
    );
    let reduced = reduce_step(&case_expr).unwrap();
    assert!(term_eq(&reduced, &false_constr));
}

#[test]
fn inductive_test_test_nat_case_zero_branch() {
    let mut g = IdGenerator::new();
    let mut env = GlobalEnvironment::new();
    let nat_id = g.generate_id();
    let zero_id = g.generate_id();
    let succ_id = g.generate_id();
    env.inductives.add_nat(nat_id, zero_id, succ_id).unwrap();
    let zero = constructor(zero_id, vec![]);
    let m = g.generate_id();
    let case_expr = case_of(zero.clone(), nat_id, vec![(zero_id, vec![], zero.clone()), (succ_id, vec![m], zero.clone())]);
    let reduced = reduce_step(&case_expr).unwrap();
    assert!(term_eq(&reduced, &zero));
}

#[test]
fn inductive_test_test_nat_case_succ_branch_with_substitution() {
    let mut g = IdGenerator::new();
    let mut env = GlobalEnvironment::new();
    let nat_id = g.generate_id();
    let zero_id = g.generate_id();
    let succ_id = g.generate_id();
    env.inductives.add_nat(nat_id, zero_id, succ_id).unwrap();
    let n = g.generate_id();
    let zero = constructor(zero_id, vec![]);
    let one = constructor(succ_id, vec![zero.clone()]);
    let two = constructor(succ_id, vec![one.clone()]);
    let case_expr = case_of(
        two,
        nat_id,
        vec![(zero_id, vec![], zero), (succ_id, vec![n], Term::Variable(TermVariable { id: n }))],
    );
    let reduced = reduce_step(&case_expr).unwrap();
    assert!(term_eq(&reduced, &one));
}
