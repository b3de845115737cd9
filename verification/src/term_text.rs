use vstd::prelude::*;
use vstd::string::*;

use crate::id::Id;
use crate::term::{
    lemma_view_branches, lemma_view_terms, view_branch, view_branches, view_terms, MatchBranch,
    SBranch, STerm, Sort, Term,
};
use crate::text::{decimal, id_text, id_to_string, nat_to_string};

verus! {

broadcast use vstd::std_specs::vec::group_vec_axioms;

/// How a sort is written by `{:?}`.
pub open spec fn sort_text(s: Sort) -> Seq<char> {
    match s {
        Sort::SetSort => "SetSort"@,
        Sort::Prop => "Prop"@,
        Sort::Type(l) => "Type("@ + decimal(l as nat) + ")"@,
    }
}

/// How a term is written by `{:?}`.
pub open spec fn term_text(t: STerm) -> Seq<char>
    decreases t,
{
    match t {
        STerm::Sort(s) => "Sort(TermSort { sort: "@ + sort_text(s) + " })"@,
        STerm::Var(x) => "Variable(TermVariable { id: "@ + id_text(x) + " })"@,
        STerm::Const(x) => "Constant(TermConstant { id: "@ + id_text(x) + " })"@,
        STerm::Prod(v, a, b) => "Product(TermProduct { var: "@ + id_text(v) + ", source: "@ + term_text(*a)
            + ", target: "@ + term_text(*b) + " })"@,
        STerm::Lam(v, a, b) => "Lambda(TermLambda { var: "@ + id_text(v) + ", source_ty: "@ + term_text(*a)
            + ", target: "@ + term_text(*b) + " })"@,
        STerm::App(f, args) => "Application(TermApplication { f: "@ + term_text(*f) + ", args: ["@
            + terms_text(args) + "] })"@,
        STerm::LetIn(v, a, ty, b) => "LetIn(TermLetIn { var: "@ + id_text(v) + ", term: "@ + term_text(*a)
            + ", ty: "@ + term_text(*ty) + ", body: "@ + term_text(*b) + " })"@,
        STerm::Match(sc, rt, brs) => "Match(TermMatch { scrutinee: "@ + term_text(*sc) + ", return_type: "@
            + term_text(*rt) + ", branches: ["@ + branches_text(brs) + "] })"@,
    }
}

/// The terms of `s`, separated by `, `.
pub open spec fn terms_text(s: Seq<STerm>) -> Seq<char>
    decreases s,
{
    if s.len() == 0 {
        Seq::empty()
    } else if s.len() == 1 {
        term_text(s[0])
    } else {
        terms_text(s.drop_last()) + ", "@ + term_text(s.last())
    }
}

/// The identifiers of `s`, separated by `, `.
pub open spec fn ids_text(s: Seq<Id>) -> Seq<char>
    decreases s.len(),
{
    if s.len() == 0 {
        Seq::empty()
    } else if s.len() == 1 {
        id_text(s[0])
    } else {
        ids_text(s.drop_last()) + ", "@ + id_text(s.last())
    }
}

pub open spec fn branch_text(b: SBranch) -> Seq<char>
    decreases b,
{
    "MatchBranch { constructor_id: "@ + id_text(b.ctor) + ", bound_vars: ["@ + ids_text(b.bound) + "], body: "@
        + term_text(b.body) + " }"@
}

/// The branches of `s`, separated by `, `.
pub open spec fn branches_text(s: Seq<SBranch>) -> Seq<char>
    decreases s,
{
    if s.len() == 0 {
        Seq::empty()
    } else if s.len() == 1 {
        branch_text(s[0])
    } else {
        branches_text(s.drop_last()) + ", "@ + branch_text(s.last())
    }
}

fn append_sort(out: &mut String, s: Sort)
    ensures
        final(out)@ == old(out)@ + sort_text(s),
{
    match s {
        Sort::SetSort => {
            out.append("SetSort");
        },
        Sort::Prop => {
            out.append("Prop");
        },
        Sort::Type(l) => {
            out.append("Type(");
            let d = nat_to_string(l as u128);
            out.append(d.as_str());
            out.append(")");
        },
    }
}

fn append_id(out: &mut String, id: Id)
    ensures
        final(out)@ == old(out)@ + id_text(id),
{
    let s = id_to_string(id);
    out.append(s.as_str());
}

/// Appends how `t` is written by `{:?}`.
#[verifier::spinoff_prover]
#[verifier::rlimit(60)]
pub fn append_term(out: &mut String, t: &Term)
    ensures
        final(out)@ == old(out)@ + term_text(t@),
    decreases t,
{
    let ghost o = out@;
    match t {
        Term::Sort(s) => {
            out.append("Sort(TermSort { sort: ");
            append_sort(out, s.sort);
            out.append(" })");
        },
        Term::Variable(v) => {
            out.append("Variable(TermVariable { id: ");
            append_id(out, v.id);
            out.append(" })");
        },
        Term::Constant(c) => {
            out.append("Constant(TermConstant { id: ");
            append_id(out, c.id);
            out.append(" })");
        },
        Term::Product(p) => {
            out.append("Product(TermProduct { var: ");
            append_id(out, p.var);
            out.append(", source: ");
            append_term(out, &p.source);
            out.append(", target: ");
            append_term(out, &p.target);
            out.append(" })");
        },
        Term::Lambda(l) => {
            out.append("Lambda(TermLambda { var: ");
            append_id(out, l.var);
            out.append(", source_ty: ");
            append_term(out, &l.source_ty);
            out.append(", target: ");
            append_term(out, &l.target);
            out.append(" })");
        },
        Term::Application(a) => {
            out.append("Application(TermApplication { f: ");
            append_term(out, &a.f);
            out.append(", args: [");
            append_terms(out, &a.args);
            out.append("] })");
        },
        Term::LetIn(l) => {
            out.append("LetIn(TermLetIn { var: ");
            append_id(out, l.var);
            out.append(", term: ");
            append_term(out, &l.term);
            out.append(", ty: ");
            append_term(out, &l.ty);
            out.append(", body: ");
            append_term(out, &l.body);
            out.append(" })");
        },
        Term::Match(m) => {
            out.append("Match(TermMatch { scrutinee: ");
            append_term(out, &m.scrutinee);
            out.append(", return_type: ");
            append_term(out, &m.return_type);
            out.append(", branches: [");
            append_branches(out, &m.branches);
            out.append("] })");
        },
    }
    assert(out@ =~= o + term_text(t@));
}

fn append_terms(out: &mut String, v: &Vec<Term>)
    ensures
        final(out)@ == old(out)@ + terms_text(view_terms(v@)),
    decreases v,
{
    proof {
        lemma_view_terms(v@);
    }
    let ghost o = out@;
    let ghost s = view_terms(v@);
    let mut i: usize = 0;
    while i < v.len()
        invariant
            i <= v@.len(),
            s == view_terms(v@),
            s.len() == v@.len(),
            forall|k: int| 0 <= k < v@.len() ==> #[trigger] s[k] == v@[k]@,
            out@ == o + terms_text(s.take(i as int)),
        decreases v.len() - i,
    {
        assert(s.take(i + 1).drop_last() =~= s.take(i as int));
        assert(s.take(i + 1).last() == s[i as int]);
        if i > 0 {
            out.append(", ");
        }
        append_term(out, &v[i]);
        proof {
            if i == 0 {
                assert(s.take(1)[0] == s[0]);
                assert(out@ =~= o + terms_text(s.take(i + 1)));
            } else {
                assert(out@ =~= o + terms_text(s.take(i + 1)));
            }
        }
        i = i + 1;
    }
    assert(s.take(v@.len() as int) =~= s);
}

fn append_ids(out: &mut String, v: &Vec<Id>)
    ensures
        final(out)@ == old(out)@ + ids_text(v@),
{
    let ghost o = out@;
    let mut i: usize = 0;
    while i < v.len()
        invariant
            i <= v@.len(),
            out@ == o + ids_text(v@.take(i as int)),
        decreases v.len() - i,
    {
        assert(v@.take(i + 1).drop_last() =~= v@.take(i as int));
        assert(v@.take(i + 1).last() == v@[i as int]);
        if i > 0 {
            out.append(", ");
        }
        append_id(out, v[i]);
        proof {
            if i == 0 {
                assert(v@.take(1)[0] == v@[0]);
            }
            assert(out@ =~= o + ids_text(v@.take(i + 1)));
        }
        i = i + 1;
    }
    assert(v@.take(v@.len() as int) =~= v@);
}

fn append_branch(out: &mut String, b: &MatchBranch)
    ensures
        final(out)@ == old(out)@ + branch_text(view_branch(*b)),
    decreases b,
{
    let ghost o = out@;
    out.append("MatchBranch { constructor_id: ");
    append_id(out, b.constructor_id);
    out.append(", bound_vars: [");
    append_ids(out, &b.bound_vars);
    out.append("], body: ");
    append_term(out, &b.body);
    out.append(" }");
    assert(out@ =~= o + branch_text(view_branch(*b)));
}

fn append_branches(out: &mut String, v: &Vec<MatchBranch>)
    ensures
        final(out)@ == old(out)@ + branches_text(view_branches(v@)),
    decreases v,
{
    proof {
        lemma_view_branches(v@);
    }
    let ghost o = out@;
    let ghost s = view_branches(v@);
    let mut i: usize = 0;
    while i < v.len()
        invariant
            i <= v@.len(),
            s == view_branches(v@),
            s.len() == v@.len(),
            forall|k: int| 0 <= k < v@.len() ==> #[trigger] s[k] == view_branch(v@[k]),
            out@ == o + branches_text(s.take(i as int)),
        decreases v.len() - i,
    {
        assert(s.take(i + 1).drop_last() =~= s.take(i as int));
        assert(s.take(i + 1).last() == s[i as int]);
        if i > 0 {
            out.append(", ");
        }
        append_branch(out, &v[i]);
        proof {
            if i == 0 {
                assert(s.take(1)[0] == s[0]);
            }
            assert(out@ =~= o + branches_text(s.take(i + 1)));
        }
        i = i + 1;
    }
    assert(s.take(v@.len() as int) =~= s);
}

/// How `t` is written by `{:?}`.
pub fn term_to_string(t: &Term) -> (s: String)
    ensures
        s@ == term_text(t@),
{
    let mut s = String::new();
    append_term(&mut s, t);
    assert(s@ =~= term_text(t@));
    s
}

} // verus!
