use std::rc::Rc;
use vstd::prelude::*;
use vstd::string::*;

use crate::global_environment::{GlobalEnvironment, SConstant};
use crate::id::Id;
use crate::inductive::{first_ctor, pi_telescope, SInductive};
use crate::local_context::LocalContext;
use crate::reduction::{
    const_defs, lemma_normalize_fuel, lemma_normalize_spec, lemma_whnf_fuel, normalize_env_fuel,
    normalize_f, normalize_spec, normalize_with_env, normalizes, whnf_env_fuel, whnf_f,
};
use crate::substitution::{subst, substitute, Substitution};
use crate::term::{
    clone_term, lemma_view_branches, lemma_view_terms, term_eq, view_branch, view_branches,
    view_terms, MatchBranch, SBranch, STerm, Sort, Term, TermApplication, TermLambda, TermLetIn,
    TermMatch, TermProduct, TermSort,
};
use crate::term_text::{append_term, term_text, term_to_string};
use crate::codegen::{join2, join4};
use crate::text::{decimal, id_text, id_to_string, nat_to_string};

verus! {

broadcast use vstd::std_specs::vec::group_vec_axioms;

/// Type checking errors.
#[derive(Debug)]
pub enum TypeError {
    UnboundVariable(String),
    UnboundConstant(String),
    NotAFunction(String),
    TypeMismatch { expected: String, found: String },
    NotAType(String),
    InvalidApplication(String),
    InvalidProductSort(String),
    UniverseInconsistency(String),
    UnknownInductive(String),
    UnknownConstructor(String),
    InvalidConstructor(String),
    InvalidCase(String),
}

/// The value of a type error: its kind and its text.
pub enum SError {
    UnboundVariable(Seq<char>),
    UnboundConstant(Seq<char>),
    NotAFunction(Seq<char>),
    TypeMismatch(Seq<char>, Seq<char>),
    NotAType(Seq<char>),
    InvalidApplication(Seq<char>),
    InvalidProductSort(Seq<char>),
    UniverseInconsistency(Seq<char>),
    UnknownInductive(Seq<char>),
    UnknownConstructor(Seq<char>),
    InvalidConstructor(Seq<char>),
    InvalidCase(Seq<char>),
}

impl TypeError {
    pub open spec fn view(&self) -> SError {
        match self {
            TypeError::UnboundVariable(m) => SError::UnboundVariable(m@),
            TypeError::UnboundConstant(m) => SError::UnboundConstant(m@),
            TypeError::NotAFunction(m) => SError::NotAFunction(m@),
            TypeError::TypeMismatch { expected, found } => SError::TypeMismatch(expected@, found@),
            TypeError::NotAType(m) => SError::NotAType(m@),
            TypeError::InvalidApplication(m) => SError::InvalidApplication(m@),
            TypeError::InvalidProductSort(m) => SError::InvalidProductSort(m@),
            TypeError::UniverseInconsistency(m) => SError::UniverseInconsistency(m@),
            TypeError::UnknownInductive(m) => SError::UnknownInductive(m@),
            TypeError::UnknownConstructor(m) => SError::UnknownConstructor(m@),
            TypeError::InvalidConstructor(m) => SError::InvalidConstructor(m@),
            TypeError::InvalidCase(m) => SError::InvalidCase(m@),
        }
    }
}

/// How a type error is displayed.
pub open spec fn error_text(e: SError) -> Seq<char> {
    match e {
        SError::UnboundVariable(m) => "Unbound variable: "@ + m,
        SError::UnboundConstant(m) => "Unbound constant: "@ + m,
        SError::NotAFunction(m) => "Not a function: "@ + m,
        SError::TypeMismatch(expected, found) => "Type mismatch: expected "@ + expected + ", found "@ + found,
        SError::NotAType(m) => "Not a type: "@ + m,
        SError::InvalidApplication(m) => "Invalid application: "@ + m,
        SError::InvalidProductSort(m) => "Invalid product sort: "@ + m,
        SError::UniverseInconsistency(m) => "Universe inconsistency: "@ + m,
        SError::UnknownInductive(m) => "Unknown inductive type: "@ + m,
        SError::UnknownConstructor(m) => "Unknown constructor: "@ + m,
        SError::InvalidConstructor(m) => "Invalid constructor: "@ + m,
        SError::InvalidCase(m) => "Invalid case expression: "@ + m,
    }
}

impl TypeError {
    /// The text of the error, as it is displayed.
    pub fn message(&self) -> (r: String)
        ensures
            r@ == error_text(self@),
    {
        match self {
            TypeError::UnboundVariable(m) => join2("Unbound variable: ", m.as_str()),
            TypeError::UnboundConstant(m) => join2("Unbound constant: ", m.as_str()),
            TypeError::NotAFunction(m) => join2("Not a function: ", m.as_str()),
            TypeError::TypeMismatch { expected, found } => join4(
                "Type mismatch: expected ",
                expected.as_str(),
                ", found ",
                found.as_str(),
            ),
            TypeError::NotAType(m) => join2("Not a type: ", m.as_str()),
            TypeError::InvalidApplication(m) => join2("Invalid application: ", m.as_str()),
            TypeError::InvalidProductSort(m) => join2("Invalid product sort: ", m.as_str()),
            TypeError::UniverseInconsistency(m) => join2("Universe inconsistency: ", m.as_str()),
            TypeError::UnknownInductive(m) => join2("Unknown inductive type: ", m.as_str()),
            TypeError::UnknownConstructor(m) => join2("Unknown constructor: ", m.as_str()),
            TypeError::InvalidConstructor(m) => join2("Invalid constructor: ", m.as_str()),
            TypeError::InvalidCase(m) => join2("Invalid case expression: ", m.as_str()),
        }
    }
}

/// The value of a global environment: constants, inductive types, and the inductive type
/// of each constructor.
pub struct SEnv {
    pub consts: Map<Id, SConstant>,
    pub inds: Map<Id, SInductive>,
    pub owners: Map<Id, Id>,
}

pub open spec fn env_view(env: &GlobalEnvironment) -> SEnv {
    SEnv { consts: env.constants(), inds: env.inductives.inductives(), owners: env.inductives.owners() }
}

/// The constants that δ-reduction unfolds.
pub open spec fn env_defs(e: SEnv) -> Map<Id, STerm> {
    const_defs(e.consts)
}

/// The message of a universe level without successor.
pub open spec fn no_successor_message(l: usize) -> Seq<char> {
    "Universe level "@ + decimal(l as nat) + " has no successor"@
}

/// The type of a sort: `Set : Type(0)`, `Prop : Type(0)`, `Type(i) : Type(i+1)`.
pub open spec fn sort_type(s: Sort) -> Result<Sort, SError> {
    match s {
        Sort::SetSort => Ok(Sort::Type(0)),
        Sort::Prop => Ok(Sort::Type(0)),
        Sort::Type(l) => if l < usize::MAX {
            Ok(Sort::Type((l + 1) as usize))
        } else {
            Err(SError::UniverseInconsistency(no_successor_message(l)))
        },
    }
}

/// The sort of a product `Π x : A. B` with `A : s1` and `B : s2`.
pub open spec fn sort_rule(s1: Sort, s2: Sort) -> Sort {
    match (s1, s2) {
        (Sort::Type(i), Sort::Type(j)) => Sort::Type(if i >= j { i } else { j }),
        (_, Sort::Type(j)) => Sort::Type(j),
        (_, s) => s,
    }
}

/// The context extended with `x : a`; a variable that is bound keeps its type.
pub open spec fn ctx_with(ctx: Map<Id, STerm>, x: Id, a: STerm) -> Map<Id, STerm> {
    if ctx.contains_key(x) {
        ctx
    } else {
        ctx.insert(x, a)
    }
}

/// The type of a constant: a declared constant, an inductive type, or a constructor.
pub open spec fn constant_type(e: SEnv, c: Id) -> Result<STerm, SError> {
    if e.consts.contains_key(c) {
        Ok(e.consts[c].ty)
    } else if e.inds.contains_key(c) {
        Ok(pi_telescope(e.inds[c].params, e.inds[c].sort))
    } else if e.owners.contains_key(c) && e.inds.contains_key(e.owners[c]) && first_ctor(
        e.inds[e.owners[c]].ctors,
        c,
    ) is Some {
        Ok(e.inds[e.owners[c]].ctors[first_ctor(e.inds[e.owners[c]].ctors, c)->0].ty)
    } else {
        Err(SError::UnboundConstant(id_text(c)))
    }
}

/// The sort that the type `ty` reduces to, with fuel `n`.
pub open spec fn ensure_sort_f(e: SEnv, ty: STerm, n: nat) -> Option<Result<Sort, SError>> {
    match whnf_f(env_defs(e), ty, n) {
        None => None,
        Some(STerm::Sort(s)) => Some(Ok(s)),
        Some(_) => Some(Err(SError::NotAType(term_text(ty)))),
    }
}

/// Whether `a` and `b` have the same normal form, with fuel `n`.
pub open spec fn convertible_f(e: SEnv, a: STerm, b: STerm, n: nat) -> Option<bool> {
    match (normalize_f(env_defs(e), a, n), normalize_f(env_defs(e), b, n)) {
        (Some(x), Some(y)) => Some(x == y),
        _ => None,
    }
}

pub open spec fn branch_count_message(branches: nat, constructors: nat) -> Seq<char> {
    "Case has "@ + decimal(branches) + " branches but inductive type has "@ + decimal(constructors)
        + " constructors"@
}

pub open spec fn arity_message(ctor: Id, bound: nat, arity: nat) -> Seq<char> {
    "Branch for constructor "@ + id_text(ctor) + " binds "@ + decimal(bound)
        + " variables but constructor has arity "@ + decimal(arity)
}

/// Type inference with fuel `n` (`None`: the fuel ran out).
pub open spec fn infer_f(ctx: Map<Id, STerm>, e: SEnv, t: STerm, n: nat) -> Option<Result<STerm, SError>>
    decreases n, 0nat,
{
    if n == 0 {
        None
    } else {
        let m = (n - 1) as nat;
        match t {
            STerm::Sort(s) => Some(
                match sort_type(s) {
                    Ok(s2) => Ok(STerm::Sort(s2)),
                    Err(er) => Err(er),
                },
            ),
            STerm::Var(x) => Some(
                if ctx.contains_key(x) {
                    Ok(ctx[x])
                } else {
                    Err(SError::UnboundVariable(id_text(x)))
                },
            ),
            STerm::Const(c) => Some(constant_type(e, c)),
            STerm::Prod(x, a, b) => match infer_f(ctx, e, *a, m) {
                None => None,
                Some(Err(er)) => Some(Err(er)),
                Some(Ok(ta)) => match ensure_sort_f(e, ta, m) {
                    None => None,
                    Some(Err(er)) => Some(Err(er)),
                    Some(Ok(s1)) => match infer_f(ctx_with(ctx, x, *a), e, *b, m) {
                        None => None,
                        Some(Err(er)) => Some(Err(er)),
                        Some(Ok(tb)) => match ensure_sort_f(e, tb, m) {
                            None => None,
                            Some(Err(er)) => Some(Err(er)),
                            Some(Ok(s2)) => Some(Ok(STerm::Sort(sort_rule(s1, s2)))),
                        },
                    },
                },
            },
            STerm::Lam(x, a, body) => match infer_f(ctx, e, *a, m) {
                None => None,
                Some(Err(er)) => Some(Err(er)),
                Some(Ok(ta)) => match ensure_sort_f(e, ta, m) {
                    None => None,
                    Some(Err(er)) => Some(Err(er)),
                    Some(Ok(_)) => match infer_f(ctx_with(ctx, x, *a), e, *body, m) {
                        None => None,
                        Some(Err(er)) => Some(Err(er)),
                        Some(Ok(bt)) => match infer_f(ctx, e, STerm::Prod(x, a, Box::new(bt)), m) {
                            None => None,
                            Some(Err(er)) => Some(Err(er)),
                            Some(Ok(_)) => Some(Ok(STerm::Prod(x, a, Box::new(bt)))),
                        },
                    },
                },
            },
            STerm::App(f, args) => match infer_f(ctx, e, *f, m) {
                None => None,
                Some(Err(er)) => Some(Err(er)),
                Some(Ok(ft)) => app_from_f(ctx, e, ft, args, 0, m),
            },
            STerm::LetIn(x, a, ty, body) => match check_f(ctx, e, *a, *ty, m) {
                None => None,
                Some(Err(er)) => Some(Err(er)),
                Some(Ok(_)) => match infer_f(ctx, e, *ty, m) {
                    None => None,
                    Some(Err(er)) => Some(Err(er)),
                    Some(Ok(tt)) => match ensure_sort_f(e, tt, m) {
                        None => None,
                        Some(Err(er)) => Some(Err(er)),
                        Some(Ok(_)) => match infer_f(ctx_with(ctx, x, *ty), e, *body, m) {
                            None => None,
                            Some(Err(er)) => Some(Err(er)),
                            Some(Ok(bt)) => Some(Ok(subst(bt, Map::empty().insert(x, *a)))),
                        },
                    },
                },
            },
            STerm::Match(sc, rt, brs) => match infer_f(ctx, e, *sc, m) {
                None => None,
                Some(Err(er)) => Some(Err(er)),
                Some(Ok(st)) => match st {
                    STerm::Const(c) => if e.inds.contains_key(c) {
                        if brs.len() != e.inds[c].ctors.len() {
                            Some(
                                Err(
                                    SError::InvalidCase(
                                        branch_count_message(brs.len(), e.inds[c].ctors.len()),
                                    ),
                                ),
                            )
                        } else {
                            match branches_from_f(ctx, e, e.inds[c], brs, 0, m) {
                                None => None,
                                Some(Err(er)) => Some(Err(er)),
                                Some(Ok(_)) => Some(Ok(*rt)),
                            }
                        }
                    } else {
                        Some(
                            Err(
                                SError::InvalidCase(
                                    "Case scrutinee type "@ + id_text(c) + " is not an inductive type"@,
                                ),
                            ),
                        )
                    },
                    _ => Some(
                        Err(
                            SError::InvalidCase(
                                "Case scrutinee must have inductive type, got "@ + term_text(st),
                            ),
                        ),
                    ),
                },
            },
        }
    }
}

/// Type checking against `ty` with fuel `n`.
pub open spec fn check_f(ctx: Map<Id, STerm>, e: SEnv, t: STerm, ty: STerm, n: nat) -> Option<Result<(), SError>>
    decreases n, 0nat,
{
    if n == 0 {
        None
    } else {
        match infer_f(ctx, e, t, (n - 1) as nat) {
            None => None,
            Some(Err(er)) => Some(Err(er)),
            Some(Ok(it)) => match convertible_f(e, it, ty, (n - 1) as nat) {
                None => None,
                Some(true) => Some(Ok(())),
                Some(false) => Some(Err(SError::TypeMismatch(term_text(ty), term_text(it)))),
            },
        }
    }
}

/// The type of `f args[i..]` where `f : ty`, with fuel `n`.
pub open spec fn app_from_f(
    ctx: Map<Id, STerm>,
    e: SEnv,
    ty: STerm,
    args: Seq<STerm>,
    i: int,
    n: nat,
) -> Option<Result<STerm, SError>>
    decreases n, args.len() - i,
{
    if i < 0 || i >= args.len() {
        Some(Ok(ty))
    } else {
        match whnf_f(env_defs(e), ty, n) {
            None => None,
            Some(fw) => match fw {
                STerm::Prod(v, src, tgt) => match check_f(ctx, e, args[i], *src, n) {
                    None => None,
                    Some(Err(er)) => Some(Err(er)),
                    Some(Ok(_)) => app_from_f(
                        ctx,
                        e,
                        subst(*tgt, Map::empty().insert(v, args[i])),
                        args,
                        i + 1,
                        n,
                    ),
                },
                _ => Some(Err(SError::NotAFunction("Expected function type, got "@ + term_text(fw)))),
            },
        }
    }
}

/// Checks the branches `brs[i..]` of a match on the inductive type `def`, with fuel `n`.
pub open spec fn branches_from_f(
    ctx: Map<Id, STerm>,
    e: SEnv,
    def: SInductive,
    brs: Seq<SBranch>,
    i: int,
    n: nat,
) -> Option<Result<(), SError>>
    decreases n, brs.len() - i,
{
    if i < 0 || i >= brs.len() {
        Some(Ok(()))
    } else {
        match first_ctor(def.ctors, brs[i].ctor) {
            None => Some(Err(SError::UnknownConstructor(id_text(brs[i].ctor)))),
            Some(k) => if brs[i].bound.len() != def.ctors[k].arity {
                Some(
                    Err(
                        SError::InvalidCase(
                            arity_message(brs[i].ctor, brs[i].bound.len(), def.ctors[k].arity),
                        ),
                    ),
                )
            } else {
                match infer_f(ctx, e, brs[i].body, n) {
                    None => None,
                    Some(Err(er)) => Some(Err(er)),
                    Some(Ok(_)) => branches_from_f(ctx, e, def, brs, i + 1, n),
                }
            },
        }
    }
}


proof fn lemma_ensure_sort_mono(e: SEnv, ty: STerm, n: nat)
    requires
        ensure_sort_f(e, ty, n) is Some,
    ensures
        ensure_sort_f(e, ty, n + 1) == ensure_sort_f(e, ty, n),
{
    crate::reduction::lemma_whnf_mono(env_defs(e), ty, n);
}

proof fn lemma_convertible_mono(e: SEnv, a: STerm, b: STerm, n: nat)
    requires
        convertible_f(e, a, b, n) is Some,
    ensures
        convertible_f(e, a, b, n + 1) == convertible_f(e, a, b, n),
{
    crate::reduction::lemma_normalize_mono(env_defs(e), a, n);
    crate::reduction::lemma_normalize_mono(env_defs(e), b, n);
}

// More fuel never changes a typing result that was reached.

pub proof fn lemma_infer_mono(ctx: Map<Id, STerm>, e: SEnv, t: STerm, n: nat)
    requires
        infer_f(ctx, e, t, n) is Some,
    ensures
        infer_f(ctx, e, t, n + 1) == infer_f(ctx, e, t, n),
    decreases n, 0nat,
{
    let m = (n - 1) as nat;
    match t {
        STerm::Prod(x, a, b) => {
            lemma_infer_mono(ctx, e, *a, m);
            if let Some(Ok(ta)) = infer_f(ctx, e, *a, m) {
                lemma_ensure_sort_mono(e, ta, m);
                if let Some(Ok(s1)) = ensure_sort_f(e, ta, m) {
                    lemma_infer_mono(ctx_with(ctx, x, *a), e, *b, m);
                    if let Some(Ok(tb)) = infer_f(ctx_with(ctx, x, *a), e, *b, m) {
                        lemma_ensure_sort_mono(e, tb, m);
                    }
                }
            }
        },
        STerm::Lam(x, a, body) => {
            lemma_infer_mono(ctx, e, *a, m);
            if let Some(Ok(ta)) = infer_f(ctx, e, *a, m) {
                lemma_ensure_sort_mono(e, ta, m);
                if let Some(Ok(_)) = ensure_sort_f(e, ta, m) {
                    lemma_infer_mono(ctx_with(ctx, x, *a), e, *body, m);
                    if let Some(Ok(bt)) = infer_f(ctx_with(ctx, x, *a), e, *body, m) {
                        lemma_infer_mono(ctx, e, STerm::Prod(x, a, Box::new(bt)), m);
                    }
                }
            }
        },
        STerm::App(f, args) => {
            lemma_infer_mono(ctx, e, *f, m);
            if let Some(Ok(ft)) = infer_f(ctx, e, *f, m) {
                lemma_app_from_mono(ctx, e, ft, args, 0, m);
            }
        },
        STerm::LetIn(x, a, ty, body) => {
            lemma_check_mono(ctx, e, *a, *ty, m);
            if let Some(Ok(_)) = check_f(ctx, e, *a, *ty, m) {
                lemma_infer_mono(ctx, e, *ty, m);
                if let Some(Ok(tt)) = infer_f(ctx, e, *ty, m) {
                    lemma_ensure_sort_mono(e, tt, m);
                    if let Some(Ok(_)) = ensure_sort_f(e, tt, m) {
                        lemma_infer_mono(ctx_with(ctx, x, *ty), e, *body, m);
                    }
                }
            }
        },
        STerm::Match(sc, rt, brs) => {
            lemma_infer_mono(ctx, e, *sc, m);
            if let Some(Ok(STerm::Const(c))) = infer_f(ctx, e, *sc, m) {
                if e.inds.contains_key(c) && brs.len() == e.inds[c].ctors.len() {
                    lemma_branches_from_mono(ctx, e, e.inds[c], brs, 0, m);
                }
            }
        },
        _ => {},
    }
}

pub proof fn lemma_check_mono(ctx: Map<Id, STerm>, e: SEnv, t: STerm, ty: STerm, n: nat)
    requires
        check_f(ctx, e, t, ty, n) is Some,
    ensures
        check_f(ctx, e, t, ty, n + 1) == check_f(ctx, e, t, ty, n),
    decreases n, 0nat,
{
    let m = (n - 1) as nat;
    lemma_infer_mono(ctx, e, t, m);
    if let Some(Ok(it)) = infer_f(ctx, e, t, m) {
        lemma_convertible_mono(e, it, ty, m);
    }
}

pub proof fn lemma_app_from_mono(ctx: Map<Id, STerm>, e: SEnv, ty: STerm, args: Seq<STerm>, i: int, n: nat)
    requires
        app_from_f(ctx, e, ty, args, i, n) is Some,
    ensures
        app_from_f(ctx, e, ty, args, i, n + 1) == app_from_f(ctx, e, ty, args, i, n),
    decreases n, args.len() - i,
{
    if 0 <= i < args.len() {
        crate::reduction::lemma_whnf_mono(env_defs(e), ty, n);
        if let Some(STerm::Prod(v, src, tgt)) = whnf_f(env_defs(e), ty, n) {
            lemma_check_mono(ctx, e, args[i], *src, n);
            if let Some(Ok(_)) = check_f(ctx, e, args[i], *src, n) {
                lemma_app_from_mono(ctx, e, subst(*tgt, Map::empty().insert(v, args[i])), args, i + 1, n);
            }
        }
    }
}

pub proof fn lemma_branches_from_mono(
    ctx: Map<Id, STerm>,
    e: SEnv,
    def: SInductive,
    brs: Seq<SBranch>,
    i: int,
    n: nat,
)
    requires
        branches_from_f(ctx, e, def, brs, i, n) is Some,
    ensures
        branches_from_f(ctx, e, def, brs, i, n + 1) == branches_from_f(ctx, e, def, brs, i, n),
    decreases n, brs.len() - i,
{
    if 0 <= i < brs.len() {
        if let Some(k) = first_ctor(def.ctors, brs[i].ctor) {
            if brs[i].bound.len() == def.ctors[k].arity {
                lemma_infer_mono(ctx, e, brs[i].body, n);
                if let Some(Ok(_)) = infer_f(ctx, e, brs[i].body, n) {
                    lemma_branches_from_mono(ctx, e, def, brs, i + 1, n);
                }
            }
        }
    }
}


/// The value of a typing result.
pub open spec fn type_result(r: Result<Rc<Term>, TypeError>) -> Result<STerm, SError> {
    match r {
        Ok(t) => Ok((*t)@),
        Err(er) => Err(er@),
    }
}

/// The value of a checking result.
pub open spec fn check_result(r: Result<(), TypeError>) -> Result<(), SError> {
    match r {
        Ok(_) => Ok(()),
        Err(er) => Err(er@),
    }
}

/// The value of a sort result.
pub open spec fn sort_result(r: Result<Sort, TypeError>) -> Result<Sort, SError> {
    match r {
        Ok(s) => Ok(s),
        Err(er) => Err(er@),
    }
}

fn sort_term(s: Sort) -> (r: Rc<Term>)
    ensures
        (*r)@ == STerm::Sort(s),
{
    Rc::new(Term::Sort(TermSort { sort: s }))
}

/// `Set : Type(0)`, `Prop : Type(0)`, `Type(i) : Type(i+1)`.
fn infer_sort_type(s: Sort) -> (r: Result<Rc<Term>, TypeError>)
    ensures
        type_result(r) == match sort_type(s) {
            Ok(s2) => Ok::<STerm, SError>(STerm::Sort(s2)),
            Err(er) => Err(er),
        },
{
    match s {
        Sort::SetSort => Ok(sort_term(Sort::Type(0))),
        Sort::Prop => Ok(sort_term(Sort::Type(0))),
        Sort::Type(l) => if l < usize::MAX {
            Ok(sort_term(Sort::Type(l + 1)))
        } else {
            let mut m = String::from_str("Universe level ");
            let d = nat_to_string(l as u128);
            m.append(d.as_str());
            m.append(" has no successor");
            proof {
                reveal_strlit("Universe level ");
                reveal_strlit(" has no successor");
            }
            assert(m@ =~= no_successor_message(l));
            Err(TypeError::UniverseInconsistency(m))
        },
    }
}

/// The type of a variable: the one the context gives it.
fn infer_variable_type(ctx: &LocalContext, x: Id) -> (r: Result<Rc<Term>, TypeError>)
    ensures
        type_result(r) == if ctx.types().contains_key(x) {
            Ok::<STerm, SError>(ctx.types()[x])
        } else {
            Err(SError::UnboundVariable(id_text(x)))
        },
{
    match ctx.lookup(x) {
        Some(t) => Ok(t),
        None => Err(TypeError::UnboundVariable(id_to_string(x))),
    }
}

/// The type of a constant: a declared constant, then an inductive type, then a constructor.
fn infer_constant_type(env: &GlobalEnvironment, c: Id) -> (r: Result<Rc<Term>, TypeError>)
    ensures
        type_result(r) == constant_type(env_view(env), c),
{
    match env.get_constant(c) {
        Some(d) => {
            return Ok(Rc::new(clone_term(&d.ty)));
        },
        None => {},
    }
    match env.inductives.get_inductive(c) {
        Some(d) => {
            return Ok(d.get_type());
        },
        None => {},
    }
    match env.inductives.get_constructor(c) {
        Some(d) => {
            return Ok(Rc::new(clone_term(&d.ty)));
        },
        None => {},
    }
    Err(TypeError::UnboundConstant(id_to_string(c)))
}

/// The sort that `term` reduces to in weak head form.
fn ensure_sort_in(term: &Term, env: &GlobalEnvironment, Ghost(n): Ghost<nat>) -> (r: Result<Sort, TypeError>)
    requires
        ensure_sort_f(env_view(env), term@, n) is Some,
    ensures
        sort_result(r) == ensure_sort_f(env_view(env), term@, n)->0,
{
    let w = whnf_env_fuel(term, env, Ghost(n));
    match w {
        Term::Sort(s) => Ok(s.sort),
        _ => Err(TypeError::NotAType(term_to_string(term))),
    }
}

/// The sort of a product, from the sorts of its domain and codomain.
fn product_sort(s1: Sort, s2: Sort) -> (r: Sort)
    ensures
        r == sort_rule(s1, s2),
{
    match (s1, s2) {
        (Sort::Type(i), Sort::Type(j)) => Sort::Type(if i >= j { i } else { j }),
        (_, Sort::Type(j)) => Sort::Type(j),
        (_, s) => s,
    }
}

fn convertible_in(env: &GlobalEnvironment, a: &Term, b: &Term, Ghost(n): Ghost<nat>) -> (r: bool)
    requires
        convertible_f(env_view(env), a@, b@, n) is Some,
    ensures
        Some(r) == convertible_f(env_view(env), a@, b@, n),
{
    let na = normalize_env_fuel(a, env, Ghost(n));
    let nb = normalize_env_fuel(b, env, Ghost(n));
    term_eq(&na, &nb)
}


/// Type inference with fuel `n`.
fn infer_in(ctx: &LocalContext, env: &GlobalEnvironment, term: &Term, Ghost(n): Ghost<nat>) -> (r: Result<
    Rc<Term>,
    TypeError,
>)
    requires
        infer_f(ctx.types(), env_view(env), term@, n) is Some,
    ensures
        type_result(r) == infer_f(ctx.types(), env_view(env), term@, n)->0,
    decreases n, 1nat,
{
    match term {
        Term::Sort(s) => infer_sort_type(s.sort),
        Term::Variable(v) => infer_variable_type(ctx, v.id),
        Term::Constant(c) => infer_constant_type(env, c.id),
        Term::Product(p) => infer_product_in(ctx, env, p, Ghost(n)),
        Term::Lambda(l) => infer_lambda_in(ctx, env, l, Ghost(n)),
        Term::Application(a) => infer_application_in(ctx, env, a, Ghost(n)),
        Term::LetIn(l) => infer_let_in_in(ctx, env, l, Ghost(n)),
        Term::Match(mt) => infer_case_in(ctx, env, mt, Ghost(n)),
    }
}

/// Type checking against `expected` with fuel `n`.
fn check_in(ctx: &LocalContext, env: &GlobalEnvironment, term: &Term, expected: &Term, Ghost(n): Ghost<nat>) -> (r:
    Result<(), TypeError>)
    requires
        check_f(ctx.types(), env_view(env), term@, expected@, n) is Some,
    ensures
        check_result(r) == check_f(ctx.types(), env_view(env), term@, expected@, n)->0,
    decreases n, 1nat,
{
    let ghost m = (n - 1) as nat;
    let inferred = match infer_in(ctx, env, term, Ghost(m)) {
        Ok(t) => t,
        Err(er) => return Err(er),
    };
    if !convertible_in(env, &inferred, expected, Ghost(m)) {
        return Err(
            TypeError::TypeMismatch { expected: term_to_string(expected), found: term_to_string(&inferred) },
        );
    }
    Ok(())
}

fn infer_product_in(ctx: &LocalContext, env: &GlobalEnvironment, p: &TermProduct, Ghost(n): Ghost<nat>) -> (r:
    Result<Rc<Term>, TypeError>)
    requires
        infer_f(
            ctx.types(),
            env_view(env),
            STerm::Prod(p.var, Box::new((*p.source)@), Box::new((*p.target)@)),
            n,
        ) is Some,
    ensures
        type_result(r) == infer_f(
            ctx.types(),
            env_view(env),
            STerm::Prod(p.var, Box::new((*p.source)@), Box::new((*p.target)@)),
            n,
        )->0,
    decreases n, 0nat,
{
    let ghost m = (n - 1) as nat;
    let source_type = match infer_in(ctx, env, &p.source, Ghost(m)) {
        Ok(t) => t,
        Err(er) => return Err(er),
    };
    let source_sort = match ensure_sort_in(&source_type, env, Ghost(m)) {
        Ok(s) => s,
        Err(er) => return Err(er),
    };
    let extended = ctx.with(p.var, Rc::new(clone_term(&p.source)));
    let target_type = match infer_in(&extended, env, &p.target, Ghost(m)) {
        Ok(t) => t,
        Err(er) => return Err(er),
    };
    let target_sort = match ensure_sort_in(&target_type, env, Ghost(m)) {
        Ok(s) => s,
        Err(er) => return Err(er),
    };
    Ok(sort_term(product_sort(source_sort, target_sort)))
}

fn infer_lambda_in(ctx: &LocalContext, env: &GlobalEnvironment, l: &TermLambda, Ghost(n): Ghost<nat>) -> (r:
    Result<Rc<Term>, TypeError>)
    requires
        infer_f(
            ctx.types(),
            env_view(env),
            STerm::Lam(l.var, Box::new((*l.source_ty)@), Box::new((*l.target)@)),
            n,
        ) is Some,
    ensures
        type_result(r) == infer_f(
            ctx.types(),
            env_view(env),
            STerm::Lam(l.var, Box::new((*l.source_ty)@), Box::new((*l.target)@)),
            n,
        )->0,
    decreases n, 0nat,
{
    let ghost m = (n - 1) as nat;
    let source_type = match infer_in(ctx, env, &l.source_ty, Ghost(m)) {
        Ok(t) => t,
        Err(er) => return Err(er),
    };
    match ensure_sort_in(&source_type, env, Ghost(m)) {
        Ok(_) => {},
        Err(er) => return Err(er),
    }
    let extended = ctx.with(l.var, Rc::new(clone_term(&l.source_ty)));
    let body_type = match infer_in(&extended, env, &l.target, Ghost(m)) {
        Ok(t) => t,
        Err(er) => return Err(er),
    };
    let product_type = Term::Product(
        TermProduct { var: l.var, source: Rc::new(clone_term(&l.source_ty)), target: body_type },
    );
    match infer_in(ctx, env, &product_type, Ghost(m)) {
        Ok(_) => {},
        Err(er) => return Err(er),
    }
    Ok(Rc::new(product_type))
}


fn infer_application_in(ctx: &LocalContext, env: &GlobalEnvironment, a: &TermApplication, Ghost(n): Ghost<nat>) -> (r:
    Result<Rc<Term>, TypeError>)
    requires
        infer_f(ctx.types(), env_view(env), STerm::App(Box::new((*a.f)@), view_terms(a.args@)), n) is Some,
    ensures
        type_result(r) == infer_f(
            ctx.types(),
            env_view(env),
            STerm::App(Box::new((*a.f)@), view_terms(a.args@)),
            n,
        )->0,
    decreases n, 0nat,
{
    let ghost m = (n - 1) as nat;
    let ghost c = ctx.types();
    let ghost e = env_view(env);
    let ghost args = view_terms(a.args@);
    let ghost whole = infer_f(c, e, STerm::App(Box::new((*a.f)@), args), n);
    proof {
        lemma_view_terms(a.args@);
    }
    let fun_type = match infer_in(ctx, env, &a.f, Ghost(m)) {
        Ok(t) => t,
        Err(er) => return Err(er),
    };
    let ghost ft = (*fun_type)@;
    let mut result_type = fun_type;
    let mut i: usize = 0;
    while i < a.args.len()
        invariant
            i <= a.args@.len(),
            n > 0,
            m == n - 1,
            c == ctx.types(),
            e == env_view(env),
            args == view_terms(a.args@),
            args.len() == a.args@.len(),
            forall|j: int| 0 <= j < a.args@.len() ==> #[trigger] args[j] == a.args@[j]@,
            whole == infer_f(c, e, STerm::App(Box::new((*a.f)@), args), n),
            whole == app_from_f(c, e, ft, args, 0, m),
            whole is Some,
            app_from_f(c, e, (*result_type)@, args, i as int, m) == whole,
        decreases a.args@.len() - i,
    {
        assert(args[i as int] == a.args@[i as int]@);
        let w = whnf_env_fuel(&result_type, env, Ghost(m));
        match w {
            Term::Product(p) => {
                match check_in(ctx, env, &a.args[i], &p.source, Ghost(m)) {
                    Ok(()) => {},
                    Err(er) => return Err(er),
                }
                let mut sub = Substitution::new();
                sub.add(p.var, Rc::new(clone_term(&a.args[i])));
                assert(sub@ =~= Map::empty().insert(p.var, args[i as int]));
                let next = substitute(&p.target, &sub);
                result_type = Rc::new(next);
                i = i + 1;
            },
            _ => {
                let mut msg = String::from_str("Expected function type, got ");
                proof {
                    reveal_strlit("Expected function type, got ");
                }
                append_term(&mut msg, &w);
                return Err(TypeError::NotAFunction(msg));
            },
        }
    }
    Ok(result_type)
}

fn infer_let_in_in(ctx: &LocalContext, env: &GlobalEnvironment, l: &TermLetIn, Ghost(n): Ghost<nat>) -> (r: Result<
    Rc<Term>,
    TypeError,
>)
    requires
        infer_f(
            ctx.types(),
            env_view(env),
            STerm::LetIn(l.var, Box::new((*l.term)@), Box::new((*l.ty)@), Box::new((*l.body)@)),
            n,
        ) is Some,
    ensures
        type_result(r) == infer_f(
            ctx.types(),
            env_view(env),
            STerm::LetIn(l.var, Box::new((*l.term)@), Box::new((*l.ty)@), Box::new((*l.body)@)),
            n,
        )->0,
    decreases n, 0nat,
{
    let ghost m = (n - 1) as nat;
    match check_in(ctx, env, &l.term, &l.ty, Ghost(m)) {
        Ok(()) => {},
        Err(er) => return Err(er),
    }
    let ty_type = match infer_in(ctx, env, &l.ty, Ghost(m)) {
        Ok(t) => t,
        Err(er) => return Err(er),
    };
    match ensure_sort_in(&ty_type, env, Ghost(m)) {
        Ok(_) => {},
        Err(er) => return Err(er),
    }
    let extended = ctx.with(l.var, Rc::new(clone_term(&l.ty)));
    let body_type = match infer_in(&extended, env, &l.body, Ghost(m)) {
        Ok(t) => t,
        Err(er) => return Err(er),
    };
    let mut sub = Substitution::new();
    sub.add(l.var, Rc::new(clone_term(&l.term)));
    assert(sub@ =~= Map::empty().insert(l.var, (*l.term)@));
    Ok(Rc::new(substitute(&body_type, &sub)))
}


fn infer_case_in(ctx: &LocalContext, env: &GlobalEnvironment, mt: &TermMatch, Ghost(n): Ghost<nat>) -> (r: Result<
    Rc<Term>,
    TypeError,
>)
    requires
        infer_f(
            ctx.types(),
            env_view(env),
            STerm::Match(Box::new((*mt.scrutinee)@), Box::new((*mt.return_type)@), view_branches(mt.branches@)),
            n,
        ) is Some,
    ensures
        type_result(r) == infer_f(
            ctx.types(),
            env_view(env),
            STerm::Match(Box::new((*mt.scrutinee)@), Box::new((*mt.return_type)@), view_branches(mt.branches@)),
            n,
        )->0,
    decreases n, 0nat,
{
    let ghost m = (n - 1) as nat;
    let ghost c = ctx.types();
    let ghost e = env_view(env);
    let ghost brs = view_branches(mt.branches@);
    let ghost whole = infer_f(
        c,
        e,
        STerm::Match(Box::new((*mt.scrutinee)@), Box::new((*mt.return_type)@), brs),
        n,
    );
    proof {
        lemma_view_branches(mt.branches@);
    }
    let scrutinee_type = match infer_in(ctx, env, &mt.scrutinee, Ghost(m)) {
        Ok(t) => t,
        Err(er) => return Err(er),
    };
    let inductive_id = match &*scrutinee_type {
        Term::Constant(k) => k.id,
        _ => {
            let mut msg = String::from_str("Case scrutinee must have inductive type, got ");
            proof {
                reveal_strlit("Case scrutinee must have inductive type, got ");
            }
            append_term(&mut msg, &scrutinee_type);
            return Err(TypeError::InvalidCase(msg));
        },
    };
    let def = match env.inductives.get_inductive(inductive_id) {
        Some(d) => d,
        None => {
            let mut msg = String::from_str("Case scrutinee type ");
            let name = id_to_string(inductive_id);
            msg.append(name.as_str());
            msg.append(" is not an inductive type");
            proof {
                reveal_strlit("Case scrutinee type ");
                reveal_strlit(" is not an inductive type");
            }
            return Err(TypeError::InvalidCase(msg));
        },
    };
    if mt.branches.len() != def.constructor_count() {
        let mut msg = String::from_str("Case has ");
        let nb = nat_to_string(mt.branches.len() as u128);
        msg.append(nb.as_str());
        msg.append(" branches but inductive type has ");
        let nc = nat_to_string(def.constructor_count() as u128);
        msg.append(nc.as_str());
        msg.append(" constructors");
        proof {
            reveal_strlit("Case has ");
            reveal_strlit(" branches but inductive type has ");
            reveal_strlit(" constructors");
        }
        assert(msg@ =~= branch_count_message(brs.len(), def@.ctors.len()));
        return Err(TypeError::InvalidCase(msg));
    }
    let ghost d = def@;
    let mut i: usize = 0;
    while i < mt.branches.len()
        invariant
            i <= mt.branches@.len(),
            n > 0,
            m == n - 1,
            c == ctx.types(),
            e == env_view(env),
            d == def@,
            brs == view_branches(mt.branches@),
            brs.len() == mt.branches@.len(),
            forall|j: int| 0 <= j < mt.branches@.len() ==> #[trigger] brs[j] == view_branch(mt.branches@[j]),
            whole == infer_f(
                c,
                e,
                STerm::Match(Box::new((*mt.scrutinee)@), Box::new((*mt.return_type)@), brs),
                n,
            ),
            whole == match branches_from_f(c, e, d, brs, 0, m) {
                None => None,
                Some(Err(er)) => Some(Err(er)),
                Some(Ok(_)) => Some(Ok::<STerm, SError>((*mt.return_type)@)),
            },
            whole is Some,
            branches_from_f(c, e, d, brs, i as int, m) == branches_from_f(c, e, d, brs, 0, m),
        decreases mt.branches@.len() - i,
    {
        let branch = &mt.branches[i];
        assert(brs[i as int] == view_branch(mt.branches@[i as int]));
        let constructor = match def.find_constructor(branch.constructor_id) {
            Some(k) => k,
            None => return Err(TypeError::UnknownConstructor(id_to_string(branch.constructor_id))),
        };
        if branch.bound_vars.len() != constructor.arity {
            let mut msg = String::from_str("Branch for constructor ");
            let name = id_to_string(branch.constructor_id);
            msg.append(name.as_str());
            msg.append(" binds ");
            let nb = nat_to_string(branch.bound_vars.len() as u128);
            msg.append(nb.as_str());
            msg.append(" variables but constructor has arity ");
            let na = nat_to_string(constructor.arity as u128);
            msg.append(na.as_str());
            proof {
                reveal_strlit("Branch for constructor ");
                reveal_strlit(" binds ");
                reveal_strlit(" variables but constructor has arity ");
            }
            assert(msg@ =~= arity_message(branch.constructor_id, branch.bound_vars@.len(), constructor.arity as nat));
            return Err(TypeError::InvalidCase(msg));
        }
        match infer_in(ctx, env, &branch.body, Ghost(m)) {
            Ok(_) => {},
            Err(er) => return Err(er),
        }
        i = i + 1;
    }
    Ok(Rc::new(clone_term(&mt.return_type)))
}


pub proof fn lemma_infer_fuel(ctx: Map<Id, STerm>, e: SEnv, t: STerm, n: nat, m: nat)
    requires
        infer_f(ctx, e, t, n) is Some,
        n <= m,
    ensures
        infer_f(ctx, e, t, m) == infer_f(ctx, e, t, n),
    decreases m - n,
{
    if n < m {
        lemma_infer_mono(ctx, e, t, n);
        lemma_infer_fuel(ctx, e, t, n + 1, m);
    }
}

pub proof fn lemma_check_fuel(ctx: Map<Id, STerm>, e: SEnv, t: STerm, ty: STerm, n: nat, m: nat)
    requires
        check_f(ctx, e, t, ty, n) is Some,
        n <= m,
    ensures
        check_f(ctx, e, t, ty, m) == check_f(ctx, e, t, ty, n),
    decreases m - n,
{
    if n < m {
        lemma_check_mono(ctx, e, t, ty, n);
        lemma_check_fuel(ctx, e, t, ty, n + 1, m);
    }
}

/// Type inference of `t` ends.
pub open spec fn infer_terminates(ctx: Map<Id, STerm>, e: SEnv, t: STerm) -> bool {
    exists|n: nat| #[trigger] infer_f(ctx, e, t, n) is Some
}

/// The outcome of type inference of `t`: its type, or the error that stops it.
pub open spec fn infer_spec(ctx: Map<Id, STerm>, e: SEnv, t: STerm) -> Result<STerm, SError> {
    infer_f(ctx, e, t, choose|n: nat| #[trigger] infer_f(ctx, e, t, n) is Some)->0
}

/// Checking `t` against `ty` ends.
pub open spec fn check_terminates(ctx: Map<Id, STerm>, e: SEnv, t: STerm, ty: STerm) -> bool {
    exists|n: nat| #[trigger] check_f(ctx, e, t, ty, n) is Some
}

/// The outcome of checking `t` against `ty`.
pub open spec fn check_spec(ctx: Map<Id, STerm>, e: SEnv, t: STerm, ty: STerm) -> Result<(), SError> {
    check_f(ctx, e, t, ty, choose|n: nat| #[trigger] check_f(ctx, e, t, ty, n) is Some)->0
}

pub proof fn lemma_infer_spec(ctx: Map<Id, STerm>, e: SEnv, t: STerm, n: nat)
    requires
        infer_f(ctx, e, t, n) is Some,
    ensures
        infer_terminates(ctx, e, t),
        infer_spec(ctx, e, t) == infer_f(ctx, e, t, n)->0,
{
    let k = choose|k: nat| #[trigger] infer_f(ctx, e, t, k) is Some;
    if k <= n {
        lemma_infer_fuel(ctx, e, t, k, n);
    } else {
        lemma_infer_fuel(ctx, e, t, n, k);
    }
}

pub proof fn lemma_check_spec(ctx: Map<Id, STerm>, e: SEnv, t: STerm, ty: STerm, n: nat)
    requires
        check_f(ctx, e, t, ty, n) is Some,
    ensures
        check_terminates(ctx, e, t, ty),
        check_spec(ctx, e, t, ty) == check_f(ctx, e, t, ty, n)->0,
{
    let k = choose|k: nat| #[trigger] check_f(ctx, e, t, ty, k) is Some;
    if k <= n {
        lemma_check_fuel(ctx, e, t, ty, k, n);
    } else {
        lemma_check_fuel(ctx, e, t, ty, n, k);
    }
}

/// Infers the type of a term in the given context, by the typing rules of CIC.
pub fn infer_type(ctx: &LocalContext, env: &GlobalEnvironment, term: &Term) -> (r: Result<Rc<Term>, TypeError>)
    requires
        infer_terminates(ctx.types(), env_view(env), term@),
    ensures
        type_result(r) == infer_spec(ctx.types(), env_view(env), term@),
{
    let ghost n = choose|n: nat| #[trigger] infer_f(ctx.types(), env_view(env), term@, n) is Some;
    infer_in(ctx, env, term, Ghost(n))
}

/// Checks that a term has the given type: its inferred type must be convertible with it.
pub fn check_type(ctx: &LocalContext, env: &GlobalEnvironment, term: &Term, expected_type: &Term) -> (r: Result<
    (),
    TypeError,
>)
    requires
        check_terminates(ctx.types(), env_view(env), term@, expected_type@),
    ensures
        check_result(r) == check_spec(ctx.types(), env_view(env), term@, expected_type@),
{
    let ghost n = choose|n: nat| #[trigger] check_f(ctx.types(), env_view(env), term@, expected_type@, n) is Some;
    check_in(ctx, env, term, expected_type, Ghost(n))
}

/// Two terms are convertible (definitionally equal) when they have the same normal form,
/// constants of the environment unfolded.
pub fn is_convertible(ctx: &LocalContext, env: &GlobalEnvironment, term1: &Term, term2: &Term) -> (r: bool)
    requires
        normalizes(env_defs(env_view(env)), term1@),
        normalizes(env_defs(env_view(env)), term2@),
    ensures
        r == (normalize_spec(env_defs(env_view(env)), term1@) == normalize_spec(env_defs(env_view(env)), term2@)),
{
    let norm1 = normalize_with_env(term1, env);
    let norm2 = normalize_with_env(term2, env);
    term_eq(&norm1, &norm2)
}


/// `Set : Type(0)`, `Prop : Type(0)`, `Type(i) : Type(i+1)`: inference of a sort always
/// ends, with the type that the universe rules give it.
pub proof fn lemma_sort_typing(ctx: Map<Id, STerm>, e: SEnv, s: Sort)
    ensures
        infer_terminates(ctx, e, STerm::Sort(s)),
        infer_spec(ctx, e, STerm::Sort(s)) == match sort_type(s) {
            Ok(s2) => Ok::<STerm, SError>(STerm::Sort(s2)),
            Err(er) => Err(er),
        },
{
    lemma_infer_spec(ctx, e, STerm::Sort(s), 1);
}

/// The universes are stacked: `Set : Type(0)`, `Prop : Type(0)` and `Type(i) : Type(i + 1)`;
/// only the last universe that a `usize` can number has no type.
pub proof fn lemma_sort_levels(i: usize)
    ensures
        sort_type(Sort::SetSort) == Ok::<Sort, SError>(Sort::Type(0)),
        sort_type(Sort::Prop) == Ok::<Sort, SError>(Sort::Type(0)),
        i < usize::MAX ==> sort_type(Sort::Type(i)) == Ok::<Sort, SError>(Sort::Type((i + 1) as usize)),
        i == usize::MAX ==> sort_type(Sort::Type(i)) is Err,
{
}

/// The sort of a product is the larger of two universes: with `A : Type(i)` and
/// `B : Type(j)`, `Π x : A. B : Type(k)` where `k` is at least `i` and at least `j` and is
/// one of them; a codomain in `Prop` or `Set` makes the product live there, and a
/// codomain in `Type(j)` over a domain in `Prop` or `Set` gives `Type(j)`.
pub proof fn lemma_product_sort_is_max(s1: Sort, s2: Sort)
    ensures
        forall|i: usize, j: usize|
            s1 == Sort::Type(i) && s2 == Sort::Type(j) ==> (#[trigger] sort_rule(s1, s2) matches Sort::Type(k) && i
                <= k && j <= k && (k == i || k == j)),
        s2 == Sort::Prop ==> sort_rule(s1, s2) == Sort::Prop,
        s2 == Sort::SetSort ==> sort_rule(s1, s2) == Sort::SetSort,
        forall|j: usize| !(s1 is Type) && s2 == Sort::Type(j) ==> #[trigger] sort_rule(s1, s2) == Sort::Type(j),
        sort_rule(s1, s2) is Type || sort_rule(s1, s2) == s2,
{
}

/// A product of two sorts is typed by the product rule: `Π x : s1. s2` has the sort that
/// `sort_rule` gives for the types of `s1` and `s2`.
pub proof fn lemma_product_of_sorts(ctx: Map<Id, STerm>, e: SEnv, x: Id, a: Sort, b: Sort)
    requires
        sort_type(a) is Ok,
        sort_type(b) is Ok,
    ensures
        infer_terminates(ctx, e, STerm::Prod(x, Box::new(STerm::Sort(a)), Box::new(STerm::Sort(b)))),
        infer_spec(ctx, e, STerm::Prod(x, Box::new(STerm::Sort(a)), Box::new(STerm::Sort(b)))) == Ok::<STerm, SError>(
            STerm::Sort(sort_rule(sort_type(a)->Ok_0, sort_type(b)->Ok_0)),
        ),
{
    let t = STerm::Prod(x, Box::new(STerm::Sort(a)), Box::new(STerm::Sort(b)));
    let ta = STerm::Sort(sort_type(a)->Ok_0);
    let tb = STerm::Sort(sort_type(b)->Ok_0);
    assert(infer_f(ctx, e, STerm::Sort(a), 1) == Some(Ok::<STerm, SError>(ta)));
    assert(infer_f(ctx_with(ctx, x, STerm::Sort(a)), e, STerm::Sort(b), 1) == Some(Ok::<STerm, SError>(tb)));
    assert(whnf_f(env_defs(e), ta, 1) == Some(ta));
    assert(whnf_f(env_defs(e), tb, 1) == Some(tb));
    assert(infer_f(ctx, e, t, 2) == Some(Ok::<STerm, SError>(STerm::Sort(sort_rule(sort_type(a)->Ok_0, sort_type(b)->Ok_0)))));
    lemma_infer_spec(ctx, e, t, 2);
}

/// A variable has the type that the context gives it, and an unbound variable is refused.
pub proof fn lemma_variable_typing(ctx: Map<Id, STerm>, e: SEnv, x: Id)
    ensures
        infer_terminates(ctx, e, STerm::Var(x)),
        infer_spec(ctx, e, STerm::Var(x)) == if ctx.contains_key(x) {
            Ok::<STerm, SError>(ctx[x])
        } else {
            Err(SError::UnboundVariable(id_text(x)))
        },
{
    lemma_infer_spec(ctx, e, STerm::Var(x), 1);
}

/// Checking a term against a type is inferring its type and comparing the normal forms:
/// an inference error is passed on, different normal forms give a mismatch.
pub proof fn lemma_check_is_infer_then_compare(ctx: Map<Id, STerm>, e: SEnv, t: STerm, ty: STerm)
    requires
        check_terminates(ctx, e, t, ty),
    ensures
        infer_terminates(ctx, e, t),
        match infer_spec(ctx, e, t) {
            Err(er) => check_spec(ctx, e, t, ty) == Err::<(), SError>(er),
            Ok(it) => {
                &&& normalizes(env_defs(e), it)
                &&& normalizes(env_defs(e), ty)
                &&& check_spec(ctx, e, t, ty) == if normalize_spec(env_defs(e), it) == normalize_spec(
                    env_defs(e),
                    ty,
                ) {
                    Ok::<(), SError>(())
                } else {
                    Err(SError::TypeMismatch(term_text(ty), term_text(it)))
                }
            },
        },
{
    let n = choose|n: nat| #[trigger] check_f(ctx, e, t, ty, n) is Some;
    lemma_check_spec(ctx, e, t, ty, n);
    let m = (n - 1) as nat;
    lemma_infer_spec(ctx, e, t, m);
    if let Some(Ok(it)) = infer_f(ctx, e, t, m) {
        lemma_normalize_spec(env_defs(e), it, m);
        lemma_normalize_spec(env_defs(e), ty, m);
    }
}

/// Checking ends whenever inference ends and, on success, both types have normal forms.
pub proof fn lemma_check_terminates(ctx: Map<Id, STerm>, e: SEnv, t: STerm, ty: STerm)
    requires
        infer_terminates(ctx, e, t),
        infer_spec(ctx, e, t) is Ok ==> normalizes(env_defs(e), infer_spec(ctx, e, t)->Ok_0)
            && normalizes(env_defs(e), ty),
    ensures
        check_terminates(ctx, e, t, ty),
{
    let k = choose|k: nat| #[trigger] infer_f(ctx, e, t, k) is Some;
    lemma_infer_spec(ctx, e, t, k);
    match infer_f(ctx, e, t, k) {
        Some(Ok(it)) => {
            let a = choose|a: nat| #[trigger] normalize_f(env_defs(e), it, a) is Some;
            let b = choose|b: nat| #[trigger] normalize_f(env_defs(e), ty, b) is Some;
            let m = if k >= a && k >= b {
                k
            } else if a >= b {
                a
            } else {
                b
            };
            lemma_infer_fuel(ctx, e, t, k, m);
            lemma_normalize_fuel(env_defs(e), it, a, m);
            lemma_normalize_fuel(env_defs(e), ty, b, m);
            assert(check_f(ctx, e, t, ty, m + 1) is Some);
        },
        _ => {
            assert(check_f(ctx, e, t, ty, k + 1) is Some);
        },
    }
}

} // verus!
