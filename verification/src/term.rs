use std::rc::Rc;
use vstd::prelude::*;

use crate::id::Id;

verus! {

broadcast use vstd::std_specs::vec::group_vec_axioms;

/// The sorts of the calculus: `Set`, `Prop` and the universes `Type(i)`.
#[derive(Debug, Clone, Copy, PartialEq, Eq, Structural)]
pub enum Sort {
    SetSort,
    Prop,
    Type(usize),
}

#[derive(Debug, Clone)]
pub struct TermSort {
    pub sort: Sort,
}

#[derive(Debug, Clone)]
pub struct TermVariable {
    pub id: Id,
}

#[derive(Debug, Clone)]
pub struct TermConstant {
    pub id: Id,
}

#[derive(Debug, Clone)]
pub struct TermProduct {
    pub var: Id,
    pub source: Rc<Term>,
    pub target: Rc<Term>,
}

#[derive(Debug, Clone)]
pub struct TermLambda {
    pub var: Id,
    pub source_ty: Rc<Term>,
    pub target: Rc<Term>,
}

#[derive(Debug, Clone)]
pub struct TermApplication {
    pub f: Rc<Term>,
    pub args: Vec<Term>,
}

#[derive(Debug, Clone)]
pub struct TermLetIn {
    pub var: Id,
    pub term: Rc<Term>,
    pub ty: Rc<Term>,
    pub body: Rc<Term>,
}

/// Match analysis (pattern matching) on inductive types,
/// e.g. `match n with | O => ... | S p => ...`.
#[derive(Debug, Clone)]
pub struct TermMatch {
    pub scrutinee: Rc<Term>,
    pub return_type: Rc<Term>,
    pub branches: Vec<MatchBranch>,
}

/// A branch of a match expression.
#[derive(Debug, Clone)]
pub struct MatchBranch {
    pub constructor_id: Id,
    pub bound_vars: Vec<Id>,
    pub body: Rc<Term>,
}

#[derive(Debug)]
pub enum Term {
    Sort(TermSort),
    Variable(TermVariable),
    Constant(TermConstant),
    Product(TermProduct),
    Lambda(TermLambda),
    Application(TermApplication),
    LetIn(TermLetIn),
    Match(TermMatch),
}

/// The mathematical value of a term: the same tree, with sequences in place of vectors.
pub enum STerm {
    Sort(Sort),
    Var(Id),
    Const(Id),
    Prod(Id, Box<STerm>, Box<STerm>),
    Lam(Id, Box<STerm>, Box<STerm>),
    App(Box<STerm>, Seq<STerm>),
    LetIn(Id, Box<STerm>, Box<STerm>, Box<STerm>),
    Match(Box<STerm>, Box<STerm>, Seq<SBranch>),
}

/// The mathematical value of a match branch.
pub struct SBranch {
    pub ctor: Id,
    pub bound: Seq<Id>,
    pub body: STerm,
}

impl Term {
    pub open spec fn view(&self) -> STerm
        decreases self,
    {
        match self {
            Term::Sort(s) => STerm::Sort(s.sort),
            Term::Variable(v) => STerm::Var(v.id),
            Term::Constant(c) => STerm::Const(c.id),
            Term::Product(p) => STerm::Prod(p.var, Box::new((*p.source).view()), Box::new((*p.target).view())),
            Term::Lambda(l) => STerm::Lam(l.var, Box::new((*l.source_ty).view()), Box::new((*l.target).view())),
            Term::Application(a) => STerm::App(Box::new((*a.f).view()), view_terms(a.args@)),
            Term::LetIn(l) => STerm::LetIn(
                l.var,
                Box::new((*l.term).view()),
                Box::new((*l.ty).view()),
                Box::new((*l.body).view()),
            ),
            Term::Match(m) => STerm::Match(
                Box::new((*m.scrutinee).view()),
                Box::new((*m.return_type).view()),
                view_branches(m.branches@),
            ),
        }
    }
}

pub open spec fn view_terms(s: Seq<Term>) -> Seq<STerm>
    decreases s,
{
    if s.len() == 0 {
        Seq::empty()
    } else {
        view_terms(s.drop_last()).push(s.last().view())
    }
}

pub open spec fn view_branch(b: MatchBranch) -> SBranch
    decreases b,
{
    SBranch { ctor: b.constructor_id, bound: b.bound_vars@, body: (*b.body).view() }
}

pub open spec fn view_branches(s: Seq<MatchBranch>) -> Seq<SBranch>
    decreases s,
{
    if s.len() == 0 {
        Seq::empty()
    } else {
        view_branches(s.drop_last()).push(view_branch(s.last()))
    }
}


pub proof fn lemma_view_terms(s: Seq<Term>)
    ensures
        view_terms(s).len() == s.len(),
        forall|i: int| 0 <= i < s.len() ==> #[trigger] view_terms(s)[i] == s[i]@,
    decreases s.len(),
{
    if s.len() > 0 {
        lemma_view_terms(s.drop_last());
    }
}

pub proof fn lemma_view_branches(s: Seq<MatchBranch>)
    ensures
        view_branches(s).len() == s.len(),
        forall|i: int| 0 <= i < s.len() ==> #[trigger] view_branches(s)[i] == view_branch(s[i]),
    decreases s.len(),
{
    if s.len() > 0 {
        lemma_view_branches(s.drop_last());
    }
}

/// Two sequences of terms with the same length and pointwise equal values have equal values.
pub proof fn lemma_view_terms_ext(s1: Seq<Term>, s2: Seq<Term>)
    requires
        s1.len() == s2.len(),
        forall|i: int| 0 <= i < s1.len() ==> #[trigger] s1[i]@ == s2[i]@,
    ensures
        view_terms(s1) == view_terms(s2),
{
    lemma_view_terms(s1);
    lemma_view_terms(s2);
    assert(view_terms(s1) =~= view_terms(s2));
}

pub proof fn lemma_view_branches_ext(s1: Seq<MatchBranch>, s2: Seq<MatchBranch>)
    requires
        s1.len() == s2.len(),
        forall|i: int| 0 <= i < s1.len() ==> #[trigger] view_branch(s1[i]) == view_branch(s2[i]),
    ensures
        view_branches(s1) == view_branches(s2),
{
    lemma_view_branches(s1);
    lemma_view_branches(s2);
    assert(view_branches(s1) =~= view_branches(s2));
}

/// Copies a term; the copy has the same value.
pub fn clone_term(t: &Term) -> (r: Term)
    ensures
        r@ == t@,
    decreases t,
{
    match t {
        Term::Sort(s) => Term::Sort(TermSort { sort: s.sort }),
        Term::Variable(v) => Term::Variable(TermVariable { id: v.id }),
        Term::Constant(c) => Term::Constant(TermConstant { id: c.id }),
        Term::Product(p) => Term::Product(
            TermProduct {
                var: p.var,
                source: Rc::new(clone_term(&p.source)),
                target: Rc::new(clone_term(&p.target)),
            },
        ),
        Term::Lambda(l) => Term::Lambda(
            TermLambda {
                var: l.var,
                source_ty: Rc::new(clone_term(&l.source_ty)),
                target: Rc::new(clone_term(&l.target)),
            },
        ),
        Term::Application(a) => Term::Application(
            TermApplication { f: Rc::new(clone_term(&a.f)), args: clone_terms(&a.args) },
        ),
        Term::LetIn(l) => Term::LetIn(
            TermLetIn {
                var: l.var,
                term: Rc::new(clone_term(&l.term)),
                ty: Rc::new(clone_term(&l.ty)),
                body: Rc::new(clone_term(&l.body)),
            },
        ),
        Term::Match(m) => Term::Match(
            TermMatch {
                scrutinee: Rc::new(clone_term(&m.scrutinee)),
                return_type: Rc::new(clone_term(&m.return_type)),
                branches: clone_branches(&m.branches),
            },
        ),
    }
}

/// Copies a vector of identifiers.
pub fn clone_ids(v: &Vec<Id>) -> (r: Vec<Id>)
    ensures
        r@ == v@,
{
    let mut r: Vec<Id> = Vec::new();
    let mut i: usize = 0;
    while i < v.len()
        invariant
            i <= v.len(),
            r@ == v@.take(i as int),
        decreases v.len() - i,
    {
        r.push(v[i]);
        i = i + 1;
        assert(r@ =~= v@.take(i as int));
    }
    assert(v@.take(v.len() as int) =~= v@);
    r
}

/// Copies a vector of terms; the copy has the same values.
pub fn clone_terms(v: &Vec<Term>) -> (r: Vec<Term>)
    ensures
        r@.len() == v@.len(),
        view_terms(r@) == view_terms(v@),
    decreases v,
{
    let mut r: Vec<Term> = Vec::new();
    let mut i: usize = 0;
    while i < v.len()
        invariant
            i <= v.len(),
            r@.len() == i,
            forall|j: int| 0 <= j < i ==> #[trigger] r@[j]@ == v@[j]@,
        decreases v.len() - i,
    {
        let c = clone_term(&v[i]);
        r.push(c);
        i = i + 1;
    }
    proof {
        lemma_view_terms_ext(r@, v@);
    }
    r
}

pub fn clone_branch(b: &MatchBranch) -> (r: MatchBranch)
    ensures
        view_branch(r) == view_branch(*b),
    decreases b,
{
    MatchBranch {
        constructor_id: b.constructor_id,
        bound_vars: clone_ids(&b.bound_vars),
        body: Rc::new(clone_term(&b.body)),
    }
}

/// Copies a vector of match branches; the copy has the same values.
pub fn clone_branches(v: &Vec<MatchBranch>) -> (r: Vec<MatchBranch>)
    ensures
        r@.len() == v@.len(),
        view_branches(r@) == view_branches(v@),
    decreases v,
{
    let mut r: Vec<MatchBranch> = Vec::new();
    let mut i: usize = 0;
    while i < v.len()
        invariant
            i <= v.len(),
            r@.len() == i,
            forall|j: int| 0 <= j < i ==> #[trigger] view_branch(r@[j]) == view_branch(v@[j]),
        decreases v.len() - i,
    {
        let c = clone_branch(&v[i]);
        r.push(c);
        i = i + 1;
    }
    proof {
        lemma_view_branches_ext(r@, v@);
    }
    r
}

impl Clone for Term {
    fn clone(&self) -> (r: Term)
        ensures
            r@ == self@,
    {
        clone_term(self)
    }
}


/// Decides whether two vectors of identifiers are equal.
pub fn ids_eq(a: &Vec<Id>, b: &Vec<Id>) -> (r: bool)
    ensures
        r == (a@ == b@),
{
    if a.len() != b.len() {
        return false;
    }
    let mut i: usize = 0;
    while i < a.len()
        invariant
            a.len() == b.len(),
            i <= a.len(),
            forall|j: int| 0 <= j < i ==> a@[j] == b@[j],
        decreases a.len() - i,
    {
        if a[i] != b[i] {
            return false;
        }
        i = i + 1;
    }
    assert(a@ =~= b@);
    true
}

/// Decides whether two terms have the same value.
pub fn term_eq(a: &Term, b: &Term) -> (r: bool)
    ensures
        r == (a@ == b@),
    decreases a,
{
    match (a, b) {
        (Term::Sort(x), Term::Sort(y)) => x.sort == y.sort,
        (Term::Variable(x), Term::Variable(y)) => x.id == y.id,
        (Term::Constant(x), Term::Constant(y)) => x.id == y.id,
        (Term::Product(x), Term::Product(y)) => {
            x.var == y.var && term_eq(&x.source, &y.source) && term_eq(&x.target, &y.target)
        },
        (Term::Lambda(x), Term::Lambda(y)) => {
            x.var == y.var && term_eq(&x.source_ty, &y.source_ty) && term_eq(&x.target, &y.target)
        },
        (Term::Application(x), Term::Application(y)) => {
            term_eq(&x.f, &y.f) && terms_eq(&x.args, &y.args)
        },
        (Term::LetIn(x), Term::LetIn(y)) => {
            x.var == y.var && term_eq(&x.term, &y.term) && term_eq(&x.ty, &y.ty) && term_eq(
                &x.body,
                &y.body,
            )
        },
        (Term::Match(x), Term::Match(y)) => {
            term_eq(&x.scrutinee, &y.scrutinee) && term_eq(&x.return_type, &y.return_type)
                && branches_eq(&x.branches, &y.branches)
        },
        _ => false,
    }
}

/// Decides whether two vectors of terms have the same values.
pub fn terms_eq(a: &Vec<Term>, b: &Vec<Term>) -> (r: bool)
    ensures
        r == (view_terms(a@) == view_terms(b@)),
    decreases a,
{
    proof {
        lemma_view_terms(a@);
        lemma_view_terms(b@);
    }
    if a.len() != b.len() {
        return false;
    }
    let mut i: usize = 0;
    while i < a.len()
        invariant
            a.len() == b.len(),
            i <= a.len(),
            view_terms(a@).len() == a@.len(),
            view_terms(b@).len() == b@.len(),
            forall|k: int| 0 <= k < a@.len() ==> #[trigger] view_terms(a@)[k] == a@[k]@,
            forall|k: int| 0 <= k < b@.len() ==> #[trigger] view_terms(b@)[k] == b@[k]@,
            forall|j: int| 0 <= j < i ==> #[trigger] a@[j]@ == b@[j]@,
        decreases a.len() - i,
    {
        if !term_eq(&a[i], &b[i]) {
            assert(view_terms(a@)[i as int] != view_terms(b@)[i as int]);
            return false;
        }
        i = i + 1;
    }
    proof {
        lemma_view_terms_ext(a@, b@);
    }
    true
}

pub fn branch_eq(a: &MatchBranch, b: &MatchBranch) -> (r: bool)
    ensures
        r == (view_branch(*a) == view_branch(*b)),
    decreases a,
{
    a.constructor_id == b.constructor_id && ids_eq(&a.bound_vars, &b.bound_vars) && term_eq(
        &a.body,
        &b.body,
    )
}

/// Decides whether two vectors of match branches have the same values.
pub fn branches_eq(a: &Vec<MatchBranch>, b: &Vec<MatchBranch>) -> (r: bool)
    ensures
        r == (view_branches(a@) == view_branches(b@)),
    decreases a,
{
    proof {
        lemma_view_branches(a@);
        lemma_view_branches(b@);
    }
    if a.len() != b.len() {
        return false;
    }
    let mut i: usize = 0;
    while i < a.len()
        invariant
            a.len() == b.len(),
            i <= a.len(),
            view_branches(a@).len() == a@.len(),
            view_branches(b@).len() == b@.len(),
            forall|k: int| 0 <= k < a@.len() ==> #[trigger] view_branches(a@)[k] == view_branch(a@[k]),
            forall|k: int| 0 <= k < b@.len() ==> #[trigger] view_branches(b@)[k] == view_branch(b@[k]),
            forall|j: int| 0 <= j < i ==> #[trigger] view_branch(a@[j]) == view_branch(b@[j]),
        decreases a.len() - i,
    {
        if !branch_eq(&a[i], &b[i]) {
            assert(view_branches(a@)[i as int] != view_branches(b@)[i as int]);
            return false;
        }
        i = i + 1;
    }
    proof {
        lemma_view_branches_ext(a@, b@);
    }
    true
}

impl PartialEq for Term {
    fn eq(&self, other: &Term) -> (r: bool) {
        term_eq(self, other)
    }
}

impl vstd::std_specs::cmp::PartialEqSpecImpl for Term {
    open spec fn obeys_eq_spec() -> bool {
        true
    }

    open spec fn eq_spec(&self, other: &Term) -> bool {
        self@ == other@
    }
}

impl Eq for Term {

}

} // verus!
