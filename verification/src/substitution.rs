use std::collections::HashMap;
use std::rc::Rc;
use vstd::prelude::*;

use crate::id::Id;
use crate::term::{
    clone_ids, clone_term, lemma_view_branches, lemma_view_terms, view_branch, view_branches,
    view_terms, MatchBranch, SBranch, STerm, Term, TermApplication, TermConstant, TermLambda,
    TermLetIn, TermMatch, TermProduct, TermSort, TermVariable,
};

verus! {

broadcast use {
    vstd::std_specs::hash::group_hash_axioms,
    vstd::std_specs::vec::group_vec_axioms,
};

/// A finite map from identifiers to the terms that replace them.
///
/// Binders are not renamed: every binder is expected to carry an identifier of its own,
/// so a replacement never captures a bound variable.
pub struct Substitution {
    subst: HashMap<usize, Rc<Term>>,
}

impl View for Substitution {
    type V = Map<Id, STerm>;

    closed spec fn view(&self) -> Map<Id, STerm> {
        Map::new(|k: Id| self.subst@.contains_key(k.0), |k: Id| (*self.subst@[k.0])@)
    }
}

impl Substitution {
    pub fn new() -> (s: Substitution)
        ensures
            s@ == Map::<Id, STerm>::empty(),
    {
        let s = Substitution { subst: HashMap::new() };
        assert(s@ =~= Map::<Id, STerm>::empty());
        s
    }

    /// Maps `id` to `term`, replacing an earlier entry for `id`.
    pub fn add(&mut self, id: Id, term: Rc<Term>)
        ensures
            final(self)@ == old(self)@.insert(id, term@),
    {
        self.subst.insert(id.0, term);
        assert(self@ =~= old(self)@.insert(id, term@));
    }

    pub fn get(&self, id: Id) -> (r: Option<Rc<Term>>)
        ensures
            match r {
                Some(t) => self@.contains_key(id) && t@ == self@[id],
                None => !self@.contains_key(id),
            },
    {
        match self.subst.get(&id.0) {
            Some(t) => Some(Rc::new(clone_term(t))),
            None => None,
        }
    }
}

impl Default for Substitution {
    fn default() -> (s: Substitution)
        ensures
            s@ == Map::<Id, STerm>::empty(),
    {
        Substitution::new()
    }
}

/// Replaces every variable or constant that `s` maps by its image, everywhere in `t`.
pub open spec fn subst(t: STerm, s: Map<Id, STerm>) -> STerm
    decreases t,
{
    match t {
        STerm::Sort(x) => STerm::Sort(x),
        STerm::Var(x) => if s.contains_key(x) {
            s[x]
        } else {
            STerm::Var(x)
        },
        STerm::Const(x) => if s.contains_key(x) {
            s[x]
        } else {
            STerm::Const(x)
        },
        STerm::Prod(v, a, b) => STerm::Prod(v, Box::new(subst(*a, s)), Box::new(subst(*b, s))),
        STerm::Lam(v, a, b) => STerm::Lam(v, Box::new(subst(*a, s)), Box::new(subst(*b, s))),
        STerm::App(f, args) => STerm::App(Box::new(subst(*f, s)), subst_seq(args, s)),
        STerm::LetIn(v, a, ty, b) => STerm::LetIn(
            v,
            Box::new(subst(*a, s)),
            Box::new(subst(*ty, s)),
            Box::new(subst(*b, s)),
        ),
        STerm::Match(sc, rt, brs) => STerm::Match(
            Box::new(subst(*sc, s)),
            Box::new(subst(*rt, s)),
            subst_branches(brs, s),
        ),
    }
}

pub open spec fn subst_seq(args: Seq<STerm>, s: Map<Id, STerm>) -> Seq<STerm>
    decreases args,
{
    if args.len() == 0 {
        Seq::empty()
    } else {
        subst_seq(args.drop_last(), s).push(subst(args.last(), s))
    }
}

pub open spec fn subst_branches(brs: Seq<SBranch>, s: Map<Id, STerm>) -> Seq<SBranch>
    decreases brs,
{
    if brs.len() == 0 {
        Seq::empty()
    } else {
        let b = brs.last();
        subst_branches(brs.drop_last(), s).push(
            SBranch { ctor: b.ctor, bound: b.bound, body: subst(b.body, s) },
        )
    }
}

pub proof fn lemma_subst_seq(args: Seq<STerm>, s: Map<Id, STerm>)
    ensures
        subst_seq(args, s).len() == args.len(),
        forall|i: int| 0 <= i < args.len() ==> #[trigger] subst_seq(args, s)[i] == subst(args[i], s),
    decreases args.len(),
{
    if args.len() > 0 {
        lemma_subst_seq(args.drop_last(), s);
    }
}

pub proof fn lemma_subst_branches(brs: Seq<SBranch>, s: Map<Id, STerm>)
    ensures
        subst_branches(brs, s).len() == brs.len(),
        forall|i: int|
            0 <= i < brs.len() ==> #[trigger] subst_branches(brs, s)[i] == (SBranch {
                ctor: brs[i].ctor,
                bound: brs[i].bound,
                body: subst(brs[i].body, s),
            }),
    decreases brs.len(),
{
    if brs.len() > 0 {
        lemma_subst_branches(brs.drop_last(), s);
    }
}

/// Whether no variable or constant of `t` is one that `s` replaces.
pub open spec fn untouched(t: STerm, s: Map<Id, STerm>) -> bool
    decreases t,
{
    match t {
        STerm::Sort(_) => true,
        STerm::Var(x) => !s.contains_key(x),
        STerm::Const(x) => !s.contains_key(x),
        STerm::Prod(_, a, b) => untouched(*a, s) && untouched(*b, s),
        STerm::Lam(_, a, b) => untouched(*a, s) && untouched(*b, s),
        STerm::App(f, args) => untouched(*f, s) && untouched_seq(args, s),
        STerm::LetIn(_, a, ty, b) => untouched(*a, s) && untouched(*ty, s) && untouched(*b, s),
        STerm::Match(sc, rt, brs) => untouched(*sc, s) && untouched(*rt, s) && untouched_branches(brs, s),
    }
}

pub open spec fn untouched_seq(args: Seq<STerm>, s: Map<Id, STerm>) -> bool
    decreases args,
{
    args.len() == 0 || (untouched_seq(args.drop_last(), s) && untouched(args.last(), s))
}

pub open spec fn untouched_branches(brs: Seq<SBranch>, s: Map<Id, STerm>) -> bool
    decreases brs,
{
    brs.len() == 0 || (untouched_branches(brs.drop_last(), s) && untouched(brs.last().body, s))
}

/// A substitution that replaces none of a term's variables and constants leaves the term
/// as it is: binders, argument lists, branches and shape all stay.
pub proof fn lemma_subst_untouched(t: STerm, s: Map<Id, STerm>)
    requires
        untouched(t, s),
    ensures
        subst(t, s) == t,
    decreases t,
{
    match t {
        STerm::Sort(_) => {},
        STerm::Var(_) => {},
        STerm::Const(_) => {},
        STerm::Prod(_, a, b) => {
            lemma_subst_untouched(*a, s);
            lemma_subst_untouched(*b, s);
        },
        STerm::Lam(_, a, b) => {
            lemma_subst_untouched(*a, s);
            lemma_subst_untouched(*b, s);
        },
        STerm::App(f, args) => {
            lemma_subst_untouched(*f, s);
            lemma_subst_seq_untouched(args, s);
        },
        STerm::LetIn(_, a, ty, b) => {
            lemma_subst_untouched(*a, s);
            lemma_subst_untouched(*ty, s);
            lemma_subst_untouched(*b, s);
        },
        STerm::Match(sc, rt, brs) => {
            lemma_subst_untouched(*sc, s);
            lemma_subst_untouched(*rt, s);
            lemma_subst_branches_untouched(brs, s);
        },
    }
}

proof fn lemma_subst_seq_untouched(args: Seq<STerm>, s: Map<Id, STerm>)
    requires
        untouched_seq(args, s),
    ensures
        subst_seq(args, s) == args,
    decreases args,
{
    if args.len() > 0 {
        lemma_subst_seq_untouched(args.drop_last(), s);
        lemma_subst_untouched(args.last(), s);
        assert(args.drop_last().push(args.last()) =~= args);
    }
}

proof fn lemma_subst_branches_untouched(brs: Seq<SBranch>, s: Map<Id, STerm>)
    requires
        untouched_branches(brs, s),
    ensures
        subst_branches(brs, s) == brs,
    decreases brs,
{
    if brs.len() > 0 {
        lemma_subst_branches_untouched(brs.drop_last(), s);
        lemma_subst_untouched(brs.last().body, s);
        assert(brs.drop_last().push(brs.last()) =~= brs);
    }
}

/// Every term is untouched by the empty substitution.
pub proof fn lemma_untouched_by_empty(t: STerm)
    ensures
        untouched(t, Map::empty()),
    decreases t,
{
    match t {
        STerm::Prod(_, a, b) => {
            lemma_untouched_by_empty(*a);
            lemma_untouched_by_empty(*b);
        },
        STerm::Lam(_, a, b) => {
            lemma_untouched_by_empty(*a);
            lemma_untouched_by_empty(*b);
        },
        STerm::App(f, args) => {
            lemma_untouched_by_empty(*f);
            lemma_seq_untouched_by_empty(args);
        },
        STerm::LetIn(_, a, ty, b) => {
            lemma_untouched_by_empty(*a);
            lemma_untouched_by_empty(*ty);
            lemma_untouched_by_empty(*b);
        },
        STerm::Match(sc, rt, brs) => {
            lemma_untouched_by_empty(*sc);
            lemma_untouched_by_empty(*rt);
            lemma_branches_untouched_by_empty(brs);
        },
        _ => {},
    }
}

proof fn lemma_seq_untouched_by_empty(args: Seq<STerm>)
    ensures
        untouched_seq(args, Map::empty()),
    decreases args,
{
    if args.len() > 0 {
        lemma_seq_untouched_by_empty(args.drop_last());
        lemma_untouched_by_empty(args.last());
    }
}

proof fn lemma_branches_untouched_by_empty(brs: Seq<SBranch>)
    ensures
        untouched_branches(brs, Map::empty()),
    decreases brs,
{
    if brs.len() > 0 {
        lemma_branches_untouched_by_empty(brs.drop_last());
        lemma_untouched_by_empty(brs.last().body);
    }
}

/// Substituting with the empty map changes nothing.
pub proof fn lemma_subst_empty(t: STerm)
    ensures
        subst(t, Map::empty()) == t,
{
    lemma_untouched_by_empty(t);
    lemma_subst_untouched(t, Map::empty());
}

/// Applies the substitution `subst` to `term`.
pub fn substitute(term: &Term, s: &Substitution) -> (r: Term)
    ensures
        r@ == subst(term@, s@),
    decreases term,
{
    match term {
        Term::Sort(x) => Term::Sort(TermSort { sort: x.sort }),
        Term::Variable(v) => match s.get(v.id) {
            Some(u) => clone_term(&u),
            None => Term::Variable(TermVariable { id: v.id }),
        },
        Term::Constant(c) => match s.get(c.id) {
            Some(u) => clone_term(&u),
            None => Term::Constant(TermConstant { id: c.id }),
        },
        Term::Product(p) => Term::Product(
            TermProduct {
                var: p.var,
                source: Rc::new(substitute(&p.source, s)),
                target: Rc::new(substitute(&p.target, s)),
            },
        ),
        Term::Lambda(l) => Term::Lambda(
            TermLambda {
                var: l.var,
                source_ty: Rc::new(substitute(&l.source_ty, s)),
                target: Rc::new(substitute(&l.target, s)),
            },
        ),
        Term::Application(a) => {
            let f = substitute(&a.f, s);
            let args = substitute_terms(&a.args, s);
            Term::Application(TermApplication { f: Rc::new(f), args })
        },
        Term::LetIn(l) => Term::LetIn(
            TermLetIn {
                var: l.var,
                term: Rc::new(substitute(&l.term, s)),
                ty: Rc::new(substitute(&l.ty, s)),
                body: Rc::new(substitute(&l.body, s)),
            },
        ),
        Term::Match(m) => {
            let sc = substitute(&m.scrutinee, s);
            let rt = substitute(&m.return_type, s);
            let brs = substitute_branches(&m.branches, s);
            Term::Match(TermMatch { scrutinee: Rc::new(sc), return_type: Rc::new(rt), branches: brs })
        },
    }
}

fn substitute_terms(v: &Vec<Term>, s: &Substitution) -> (r: Vec<Term>)
    ensures
        view_terms(r@) == subst_seq(view_terms(v@), s@),
    decreases v,
{
    proof {
        lemma_view_terms(v@);
        lemma_subst_seq(view_terms(v@), s@);
    }
    let mut r: Vec<Term> = Vec::new();
    let mut i: usize = 0;
    while i < v.len()
        invariant
            i <= v.len(),
            r@.len() == i,
            view_terms(v@).len() == v@.len(),
            forall|k: int| 0 <= k < v@.len() ==> #[trigger] view_terms(v@)[k] == v@[k]@,
            forall|j: int| 0 <= j < i ==> #[trigger] r@[j]@ == subst(v@[j]@, s@),
        decreases v.len() - i,
    {
        let t = substitute(&v[i], s);
        r.push(t);
        i = i + 1;
    }
    proof {
        lemma_view_terms(r@);
        assert(view_terms(r@) =~= subst_seq(view_terms(v@), s@));
    }
    r
}

fn substitute_branches(v: &Vec<MatchBranch>, s: &Substitution) -> (r: Vec<MatchBranch>)
    ensures
        view_branches(r@) == subst_branches(view_branches(v@), s@),
    decreases v,
{
    proof {
        lemma_view_branches(v@);
        lemma_subst_branches(view_branches(v@), s@);
    }
    let mut r: Vec<MatchBranch> = Vec::new();
    let mut i: usize = 0;
    while i < v.len()
        invariant
            i <= v.len(),
            r@.len() == i,
            view_branches(v@).len() == v@.len(),
            forall|k: int| 0 <= k < v@.len() ==> #[trigger] view_branches(v@)[k] == view_branch(v@[k]),
            forall|j: int|
                0 <= j < i ==> #[trigger] view_branch(r@[j]) == (SBranch {
                    ctor: v@[j].constructor_id,
                    bound: v@[j].bound_vars@,
                    body: subst((*v@[j].body)@, s@),
                }),
        decreases v.len() - i,
    {
        let b = &v[i];
        let body = substitute(&b.body, s);
        let nb = MatchBranch {
            constructor_id: b.constructor_id,
            bound_vars: clone_ids(&b.bound_vars),
            body: Rc::new(body),
        };
        r.push(nb);
        i = i + 1;
    }
    proof {
        lemma_view_branches(r@);
        assert(view_branches(r@) =~= subst_branches(view_branches(v@), s@));
    }
    r
}

} // verus!
