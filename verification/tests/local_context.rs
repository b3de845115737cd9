use std::rc::Rc;

use neco::id::IdGenerator;
use neco::local_context::LocalContext;
use neco::term::{term_eq, Sort, Term, TermSort};

fn sort(s: Sort) -> Rc<Term> {
    Rc::new(Term::Sort(TermSort { sort: s }))
}

#[test]
fn extend_then_remove_gives_back_the_context() {
    let mut g = IdGenerator::new();
    let a = g.generate_id();
    let b = g.generate_id();
    let v = g.generate_id();
    let mut ctx = LocalContext::new();
    ctx.extend(a, sort(Sort::Prop)).unwrap();
    ctx.extend(b, sort(Sort::Type(0))).unwrap();
    ctx.extend(v, sort(Sort::SetSort)).unwrap();
    assert!(ctx.extend(v, sort(Sort::Prop)).is_err());
    let removed = ctx.remove(v).unwrap();
    assert!(term_eq(&removed, &sort(Sort::SetSort)));
    assert!(!ctx.contains(v));
    assert!(ctx.remove(v).is_none());
    let order: Vec<_> = ctx.iter().into_iter().map(|(id, _)| id).collect();
    assert_eq!(order, vec![a, b]);
    assert!(term_eq(&ctx.lookup(b).unwrap(), &sort(Sort::Type(0))));
    assert_eq!(ctx.len(), 2);
}
