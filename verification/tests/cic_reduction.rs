use std::rc::Rc;

use neco::global_environment::{ConstantDefinition, GlobalEnvironment};
use neco::id::{Id, IdGenerator};
use neco::inductive::{ConstructorDefinition, InductiveDefinition, InductiveEnvironment, Parameter};
use neco::local_context::LocalContext;
use neco::reduction::{normalize, reduce_step, whnf};
use neco::substitution::{substitute, Substitution};
use neco::term::{
    term_eq, MatchBranch, Sort, Term, TermApplication, TermConstant, TermLambda, TermLetIn, TermMatch,
    TermProduct, TermSort, TermVariable,
};
use neco::typechecker::{check_type, infer_type, TypeError};

#[test]
fn test_beta_reduction_identity_function() {
    let mut g = IdGenerator::new();
    // Test: (λx. x) y → y
    let x = g.generate_id();
    let y = g.generate_id();

    let lambda = Term::Lambda(TermLambda {
        var: x,
        source_ty: Rc::new(Term::Sort(TermSort { sort: Sort::SetSort })),
        target: Rc::new(Term::Variable(TermVariable { id: x })),
    });

    let app = Term::Application(TermApplication {
        f: Rc::new(lambda),
        args: vec![Term::Variable(TermVariable { id: y })],
    });

    let reduced = reduce_step(&app);
    assert!(reduced.is_some());
    assert!(term_eq(&reduced.unwrap(), &Term::Variable(TermVariable { id: y })));
}

#[test]
fn test_beta_reduction_constant_function() {
    let mut g = IdGenerator::new();
    // Test: (λx. λy. x) a b → a
    let x = g.generate_id();
    let y = g.generate_id();
    let a = g.generate_id();
    let b = g.generate_id();

    let inner_lambda = Term::Lambda(TermLambda {
        var: y,
        source_ty: Rc::new(Term::Sort(TermSort { sort: Sort::SetSort })),
        target: Rc::new(Term::Variable(TermVariable { id: x })),
    });

    let outer_lambda = Term::Lambda(TermLambda {
        var: x,
        source_ty: Rc::new(Term::Sort(TermSort { sort: Sort::SetSort })),
        target: Rc::new(inner_lambda),
    });

    let app = Term::Application(TermApplication {
        f: Rc::new(outer_lambda),
        args: vec![
            Term::Variable(TermVariable { id: a }),
            Term::Variable(TermVariable { id: b }),
        ],
    });

    let normalized = normalize(&app);
    assert!(term_eq(&normalized, &Term::Variable(TermVariable { id: a })));
}

#[test]
fn test_beta_reduction_three_arguments() {
    let mut g = IdGenerator::new();
    // Test: (λx. λy. λz. x) a b c → a
    let x = g.generate_id();
    let y = g.generate_id();
    let z = g.generate_id();
    let a = g.generate_id();
    let b = g.generate_id();
    let c = g.generate_id();

    let inner_inner_lambda = Term::Lambda(TermLambda {
        var: z,
        source_ty: Rc::new(Term::Sort(TermSort { sort: Sort::SetSort })),
        target: Rc::new(Term::Variable(TermVariable { id: x })),
    });

    let inner_lambda = Term::Lambda(TermLambda {
        var: y,
        source_ty: Rc::new(Term::Sort(TermSort { sort: Sort::SetSort })),
        target: Rc::new(inner_inner_lambda),
    });

    let outer_lambda = Term::Lambda(TermLambda {
        var: x,
        source_ty: Rc::new(Term::Sort(TermSort { sort: Sort::SetSort })),
        target: Rc::new(inner_lambda),
    });

    let app = Term::Application(TermApplication {
        f: Rc::new(outer_lambda),
        args: vec![
            Term::Variable(TermVariable { id: a }),
            Term::Variable(TermVariable { id: b }),
            Term::Variable(TermVariable { id: c }),
        ],
    });

    let normalized = normalize(&app);
    assert!(term_eq(&normalized, &Term::Variable(TermVariable { id: a })));
}

#[test]
fn test_zeta_reduction_let_in() {
    let mut g = IdGenerator::new();
    // Test: let x = a in x → a
    let x = g.generate_id();
    let a = g.generate_id();

    let let_in = Term::LetIn(TermLetIn {
        var: x,
        term: Rc::new(Term::Variable(TermVariable { id: a })),
        ty: Rc::new(Term::Sort(TermSort { sort: Sort::SetSort })),
        body: Rc::new(Term::Variable(TermVariable { id: x })),
    });

    let reduced = reduce_step(&let_in);
    assert!(reduced.is_some());
    assert!(term_eq(&reduced.unwrap(), &Term::Variable(TermVariable { id: a })));
}

#[test]
fn test_variable_is_normal_form() {
    let mut g = IdGenerator::new();
    let x = g.generate_id();
    let var = Term::Variable(TermVariable { id: x });

    assert!(reduce_step(&var).is_none());
}

#[test]
fn test_sort_is_normal_form() {
    let sort = Term::Sort(TermSort {
        sort: Sort::Type(0),
    });

    assert!(reduce_step(&sort).is_none());
}

#[test]
fn test_constant_is_normal_form() {
    let mut g = IdGenerator::new();
    let c = g.generate_id();
    let constant = Term::Constant(TermConstant { id: c });

    assert!(reduce_step(&constant).is_none());
}

#[test]
fn test_whnf_preserves_outer_structure() {
    let mut g = IdGenerator::new();
    // Test: (λx. (λy. y) x) z → (λy. y) z (WHNF, not fully reduced)
    let x = g.generate_id();
    let y = g.generate_id();
    let z = g.generate_id();

    let inner_lambda = Term::Lambda(TermLambda {
        var: y,
        source_ty: Rc::new(Term::Sort(TermSort { sort: Sort::SetSort })),
        target: Rc::new(Term::Variable(TermVariable { id: y })),
    });

    let inner_app = Term::Application(TermApplication {
        f: Rc::new(inner_lambda),
        args: vec![Term::Variable(TermVariable { id: x })],
    });

    let outer_lambda = Term::Lambda(TermLambda {
        var: x,
        source_ty: Rc::new(Term::Sort(TermSort { sort: Sort::SetSort })),
        target: Rc::new(inner_app),
    });

    let app = Term::Application(TermApplication {
        f: Rc::new(outer_lambda),
        args: vec![Term::Variable(TermVariable { id: z })],
    });

    let whnf_result = whnf(&app);

    // After WHNF reduction of (λx. (λy. y) x) z, we get (λy. y) z
    if let Term::Application(app) = &whnf_result {
        assert!(matches!(app.f.as_ref(), Term::Lambda(_)));
        assert_eq!(app.args.len(), 1);
        assert!(term_eq(&app.args[0], &Term::Variable(TermVariable { id: z })));
    } else {
        panic!("Expected application after WHNF, got {:?}", whnf_result);
    }
}

#[test]
fn test_normalize_reduces_completely() {
    let mut g = IdGenerator::new();
    // Test that normalize reduces nested applications completely
    let x = g.generate_id();

    let lambda = Term::Lambda(TermLambda {
        var: x,
        source_ty: Rc::new(Term::Sort(TermSort { sort: Sort::SetSort })),
        target: Rc::new(Term::Variable(TermVariable { id: x })),
    });

    let app = Term::Application(TermApplication {
        f: Rc::new(lambda),
        args: vec![Term::Variable(TermVariable { id: x })],
    });

    let normalized = normalize(&app);
    assert!(term_eq(&normalized, &Term::Variable(TermVariable { id: x })));
}

#[test]
fn substitution_that_touches_nothing_is_identity() {
    let mut g = IdGenerator::new();
    let x = g.generate_id();
    let y = g.generate_id();
    let c = g.generate_id();
    let term = Term::Lambda(TermLambda {
        var: x,
        source_ty: Rc::new(Term::Constant(TermConstant { id: c })),
        target: Rc::new(Term::Application(TermApplication {
            f: Rc::new(Term::Variable(TermVariable { id: x })),
            args: vec![Term::Variable(TermVariable { id: x })],
        })),
    });
    assert!(term_eq(&substitute(&term, &Substitution::new()), &term));
    let mut s = Substitution::new();
    s.add(y, Rc::new(Term::Sort(TermSort { sort: Sort::Prop })));
    assert!(term_eq(&substitute(&term, &s), &term));
}
