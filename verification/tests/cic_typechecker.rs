use std::rc::Rc;

use neco::global_environment::{ConstantDefinition, GlobalEnvironment};
use neco::id::{Id, IdGenerator};
use neco::inductive::{ConstructorDefinition, InductiveDefinition, InductiveEnvironment, Parameter};
use neco::local_context::LocalContext;
use neco::reduction::{normalize, reduce_step, whnf};
use neco::term::{
    term_eq, MatchBranch, Sort, Term, TermApplication, TermConstant, TermLambda, TermLetIn, TermMatch,
    TermProduct, TermSort, TermVariable,
};
use neco::typechecker::{check_type, infer_type, TypeError};

#[test]
fn test_set_has_type_type0() {
    let ctx = LocalContext::new();
    let env = GlobalEnvironment::new();

    let set = Term::Sort(TermSort { sort: Sort::SetSort });
    let ty = infer_type(&ctx, &env, &set).unwrap();
    assert!(term_eq(&*ty, &Term::Sort(TermSort {
            sort: Sort::Type(0)
        })));
}

#[test]
fn test_type0_has_type_type1() {
    let ctx = LocalContext::new();
    let env = GlobalEnvironment::new();

    let type0 = Term::Sort(TermSort {
        sort: Sort::Type(0),
    });
    let ty = infer_type(&ctx, &env, &type0).unwrap();
    assert!(term_eq(&*ty, &Term::Sort(TermSort {
            sort: Sort::Type(1)
        })));
}

#[test]
fn test_prop_has_type_type0() {
    let ctx = LocalContext::new();
    let env = GlobalEnvironment::new();

    let prop = Term::Sort(TermSort { sort: Sort::Prop });
    let ty = infer_type(&ctx, &env, &prop).unwrap();
    assert!(term_eq(&*ty, &Term::Sort(TermSort {
            sort: Sort::Type(0)
        })));
}

#[test]
fn test_unbound_variable_fails() {
    let mut g = IdGenerator::new();
    let ctx = LocalContext::new();
    let env = GlobalEnvironment::new();
    let x = g.generate_id();

    let var = Term::Variable(TermVariable { id: x });
    assert!(matches!(
        infer_type(&ctx, &env, &var),
        Err(TypeError::UnboundVariable(_))
    ));
}

#[test]
fn test_bound_variable_succeeds() {
    let mut g = IdGenerator::new();
    let mut ctx = LocalContext::new();
    let env = GlobalEnvironment::new();
    let x = g.generate_id();

    let set = Rc::new(Term::Sort(TermSort { sort: Sort::SetSort }));
    ctx.extend(x, set.clone()).unwrap();

    let var = Term::Variable(TermVariable { id: x });
    let ty = infer_type(&ctx, &env, &var).unwrap();
    assert!(term_eq(&ty, &set));
}

#[test]
fn test_lambda_identity_function_typing() {
    let mut g = IdGenerator::new();
    let ctx = LocalContext::new();
    let env = GlobalEnvironment::new();
    let x = g.generate_id();

    let set = Term::Sort(TermSort { sort: Sort::SetSort });
    let lambda = Term::Lambda(TermLambda {
        var: x,
        source_ty: Rc::new(set.clone()),
        target: Rc::new(Term::Variable(TermVariable { id: x })),
    });

    let ty = infer_type(&ctx, &env, &lambda).unwrap();
    let expected = Term::Product(TermProduct {
        var: x,
        source: Rc::new(set.clone()),
        target: Rc::new(set),
    });
    assert!(term_eq(&*ty, &expected));
}

#[test]
fn typechecker_test_application_typing() {
    let mut g = IdGenerator::new();
    let ctx = LocalContext::new();
    let env = GlobalEnvironment::new();
    let x = g.generate_id();
    let y = g.generate_id();

    // Create: (λx:Set. x) : Set → Set
    let set = Term::Sort(TermSort { sort: Sort::SetSort });
    let lambda = Term::Lambda(TermLambda {
        var: x,
        source_ty: Rc::new(set.clone()),
        target: Rc::new(Term::Variable(TermVariable { id: x })),
    });

    // Apply to a variable of type Set
    let mut ctx_with_y = ctx.clone();
    ctx_with_y.extend(y, Rc::new(set.clone())).unwrap();

    let app = Term::Application(TermApplication {
        f: Rc::new(lambda),
        args: vec![Term::Variable(TermVariable { id: y })],
    });

    let ty = infer_type(&ctx_with_y, &env, &app).unwrap();
    assert!(term_eq(&*ty, &set));
}

#[test]
fn test_simple_product_typing() {
    let mut g = IdGenerator::new();
    let ctx = LocalContext::new();
    let env = GlobalEnvironment::new();
    let x = g.generate_id();

    let set = Term::Sort(TermSort { sort: Sort::SetSort });
    let product = Term::Product(TermProduct {
        var: x,
        source: Rc::new(set.clone()),
        target: Rc::new(set),
    });

    let ty = infer_type(&ctx, &env, &product).unwrap();
    assert!(term_eq(&*ty, &Term::Sort(TermSort {
            sort: Sort::Type(0)
        })));
}

#[test]
fn test_type_checking_succeeds_with_correct_type() {
    let mut g = IdGenerator::new();
    let ctx = LocalContext::new();
    let env = GlobalEnvironment::new();
    let x = g.generate_id();

    // Create identity function: λx:Set. x
    let set = Term::Sort(TermSort { sort: Sort::SetSort });
    let id_fun = Term::Lambda(TermLambda {
        var: x,
        source_ty: Rc::new(set.clone()),
        target: Rc::new(Term::Variable(TermVariable { id: x })),
    });

    // Expected type: Set → Set
    let expected_type = Term::Product(TermProduct {
        var: x,
        source: Rc::new(set.clone()),
        target: Rc::new(set.clone()),
    });

    assert!(check_type(&ctx, &env, &id_fun, &expected_type).is_ok());
}

#[test]
fn test_type_checking_fails_with_wrong_type() {
    let mut g = IdGenerator::new();
    let ctx = LocalContext::new();
    let env = GlobalEnvironment::new();
    let x = g.generate_id();

    // Create identity function: λx:Set. x
    let set = Term::Sort(TermSort { sort: Sort::SetSort });
    let id_fun = Term::Lambda(TermLambda {
        var: x,
        source_ty: Rc::new(set.clone()),
        target: Rc::new(Term::Variable(TermVariable { id: x })),
    });

    // Wrong type should fail
    assert!(check_type(&ctx, &env, &id_fun, &set).is_err());
}

#[test]
fn test_dependent_product_type_inference() {
    let mut g = IdGenerator::new();
    let ctx = LocalContext::new();
    let env = GlobalEnvironment::new();
    let a = g.generate_id();
    let x = g.generate_id();

    // Test: Πa:Type(0). Πx:a. a : Type(1)
    let type0 = Term::Sort(TermSort {
        sort: Sort::Type(0),
    });
    let var_a = Term::Variable(TermVariable { id: a });

    let inner_product = Term::Product(TermProduct {
        var: x,
        source: Rc::new(var_a.clone()),
        target: Rc::new(var_a),
    });

    let outer_product = Term::Product(TermProduct {
        var: a,
        source: Rc::new(type0.clone()),
        target: Rc::new(inner_product),
    });

    let ty = infer_type(&ctx, &env, &outer_product).unwrap();
    assert!(term_eq(&*ty, &Term::Sort(TermSort {
            sort: Sort::Type(1)
        })));
}
