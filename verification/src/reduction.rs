use std::rc::Rc;
use vstd::prelude::*;

use crate::global_environment::{GlobalEnvironment, SConstant};
use crate::id::Id;
use crate::substitution::{subst, substitute, Substitution};
use crate::term::{
    clone_ids, clone_term, lemma_view_branches, lemma_view_terms, view_branch, view_branches,
    view_terms, MatchBranch, SBranch, STerm, Term, TermApplication, TermLambda, TermMatch,
    TermProduct,
};

verus! {

broadcast use vstd::std_specs::vec::group_vec_axioms;

/// β-reduction of `(λ v. body) args` by its first argument.
pub open spec fn beta(body: STerm, v: Id, args: Seq<STerm>) -> STerm {
    let r = subst(body, Map::empty().insert(v, args[0]));
    if args.len() > 1 {
        STerm::App(Box::new(r), args.skip(1))
    } else {
        r
    }
}

/// The substitution that sends each bound variable to the argument at its position;
/// a later binding of the same variable wins.
pub open spec fn zip_subst(bound: Seq<Id>, args: Seq<STerm>) -> Map<Id, STerm>
    decreases bound.len(),
{
    if bound.len() == 0 || args.len() == 0 {
        Map::empty()
    } else if bound.len() == args.len() {
        zip_subst(bound.drop_last(), args.drop_last()).insert(bound.last(), args.last())
    } else {
        Map::empty()
    }
}

/// The substitution of a branch pairs the variables with the arguments by position: with as
/// many distinct variables as arguments, the `k`-th variable is sent to the `k`-th argument
/// and no other variable is touched.
pub proof fn lemma_zip_subst_positional(bound: Seq<Id>, args: Seq<STerm>)
    requires
        bound.len() == args.len(),
        bound.no_duplicates(),
    ensures
        forall|k: int| 0 <= k < bound.len() ==> #[trigger] zip_subst(bound, args).contains_key(bound[k])
            && zip_subst(bound, args)[bound[k]] == args[k],
        forall|x: Id| #[trigger] zip_subst(bound, args).contains_key(x) <==> bound.contains(x),
    decreases bound.len(),
{
    if bound.len() > 0 {
        let b0 = bound.drop_last();
        let a0 = args.drop_last();
        assert(b0.no_duplicates());
        lemma_zip_subst_positional(b0, a0);
        let n = bound.len() - 1;
        assert forall|k: int| 0 <= k < bound.len() implies #[trigger] zip_subst(bound, args).contains_key(bound[k])
            && zip_subst(bound, args)[bound[k]] == args[k] by {
            if k < n {
                assert(bound[k] == b0[k]);
                assert(args[k] == a0[k]);
                assert(bound[k] != bound[n]);
                assert(zip_subst(b0, a0).contains_key(b0[k]));
            }
        }
        assert(zip_subst(bound, args) == zip_subst(b0, a0).insert(bound.last(), args.last()));
        assert forall|x: Id| #[trigger] zip_subst(bound, args).contains_key(x) <==> bound.contains(x) by {
            if x != bound.last() && zip_subst(b0, a0).contains_key(x) {
                assert(b0.contains(x));
                let k = choose|k: int| 0 <= k < b0.len() && b0[k] == x;
                assert(bound[k] == x);
            }
            if bound.contains(x) && x != bound.last() {
                let k = choose|k: int| 0 <= k < bound.len() && bound[k] == x;
                assert(k < n);
                assert(b0[k] == x);
                assert(b0.contains(x));
            }
            if b0.contains(x) {
                let k = choose|k: int| 0 <= k < b0.len() && b0[k] == x;
                assert(bound[k] == x);
            }
            if x == bound.last() {
                assert(bound[n] == x);
            }
        }
    }
}

/// ι-reduction: a match on a constructor applied to arguments continues with the branch
/// for that constructor, its variables replaced by the arguments in order; `m` is any map
/// that sends the `k`-th variable to the `k`-th argument and nothing else.
pub proof fn lemma_iota_by_position(c: Id, args: Seq<STerm>, brs: Seq<SBranch>, i: int, m: Map<Id, STerm>)
    requires
        find_branch(brs, c) == Some(i),
        brs[i].bound.len() == args.len(),
        args.len() > 0,
        brs[i].bound.no_duplicates(),
        forall|k: int| 0 <= k < args.len() ==> #[trigger] m.contains_key(brs[i].bound[k]) && m[brs[i].bound[k]] == args[k],
        forall|x: Id| #[trigger] m.contains_key(x) ==> brs[i].bound.contains(x),
    ensures
        iota(STerm::App(Box::new(STerm::Const(c)), args), brs) == Some(Some(subst(brs[i].body, m))),
{
    let bound = brs[i].bound;
    lemma_zip_subst_positional(bound, args);
    assert forall|x: Id| #[trigger] m.contains_key(x) <==> zip_subst(bound, args).contains_key(x) by {
        if zip_subst(bound, args).contains_key(x) {
            let k = choose|k: int| 0 <= k < bound.len() && bound[k] == x;
            assert(m.contains_key(bound[k]));
        }
    }
    assert forall|x: Id| #[trigger] m.contains_key(x) implies m[x] == zip_subst(bound, args)[x] by {
        let k = choose|k: int| 0 <= k < bound.len() && bound[k] == x;
        assert(m[bound[k]] == args[k]);
        assert(zip_subst(bound, args).contains_key(bound[k]));
    }
    assert(m =~= zip_subst(bound, args));
}

/// The position of the first branch for constructor `c`.
pub open spec fn find_branch(brs: Seq<SBranch>, c: Id) -> Option<int>
    decreases brs.len(),
{
    if brs.len() == 0 {
        None
    } else if brs[0].ctor == c {
        Some(0)
    } else {
        match find_branch(brs.drop_first(), c) {
            Some(i) => Some(i + 1),
            None => None,
        }
    }
}

/// ι-reduction at the root of `match sc with brs`, once the scrutinee is in head form `s`:
/// `Some(result)` when a branch decides, `None` when no branch applies.
pub open spec fn iota(s: STerm, brs: Seq<SBranch>) -> Option<Option<STerm>> {
    match s {
        STerm::Const(c) => match find_branch(brs, c) {
            Some(i) => if brs[i].bound.len() != 0 {
                Some(None)
            } else {
                Some(Some(brs[i].body))
            },
            None => None,
        },
        STerm::App(f, args) => match *f {
            STerm::Const(c) => match find_branch(brs, c) {
                Some(i) => if brs[i].bound.len() != args.len() {
                    Some(None)
                } else {
                    Some(Some(subst(brs[i].body, zip_subst(brs[i].bound, args))))
                },
                None => None,
            },
            _ => None,
        },
        _ => None,
    }
}

/// Weak head reduction with fuel `n` (`None`: the fuel ran out), unfolding the constants
/// that `d` defines.
pub open spec fn whnf_f(d: Map<Id, STerm>, t: STerm, n: nat) -> Option<STerm>
    decreases n, 0nat,
{
    if n == 0 {
        None
    } else {
        match t {
            STerm::App(f, args) => match whnf_f(d, *f, (n - 1) as nat) {
                None => None,
                Some(fw) => match fw {
                    STerm::Lam(v, _, body) => if args.len() > 0 {
                        Some(beta(*body, v, args))
                    } else {
                        Some(STerm::App(Box::new(fw), args))
                    },
                    _ => Some(STerm::App(Box::new(fw), args)),
                },
            },
            STerm::LetIn(v, a, _, b) => Some(subst(*b, Map::empty().insert(v, *a))),
            STerm::Match(sc, rt, brs) => match reduce_case_f(d, *sc, *rt, brs, (n - 1) as nat) {
                None => None,
                Some(None) => Some(t),
                Some(Some(r)) => whnf_f(d, r, (n - 1) as nat),
            },
            STerm::Const(c) => if d.contains_key(c) {
                whnf_f(d, d[c], (n - 1) as nat)
            } else {
                Some(t)
            },
            _ => Some(t),
        }
    }
}

/// One reduction step of `match sc return rt with brs`, with fuel `n`.
pub open spec fn reduce_case_f(
    d: Map<Id, STerm>,
    sc: STerm,
    rt: STerm,
    brs: Seq<SBranch>,
    n: nat,
) -> Option<Option<STerm>>
    decreases n, 0nat,
{
    if n == 0 {
        None
    } else {
        match whnf_f(d, sc, (n - 1) as nat) {
            None => None,
            Some(s) => match iota(s, brs) {
                Some(res) => Some(res),
                None => match reduce_step_f(d, sc, (n - 1) as nat) {
                    None => None,
                    Some(Some(r)) => Some(Some(STerm::Match(Box::new(r), Box::new(rt), brs))),
                    Some(None) => match reduce_step_f(d, rt, (n - 1) as nat) {
                        None => None,
                        Some(Some(r)) => Some(Some(STerm::Match(Box::new(sc), Box::new(r), brs))),
                        Some(None) => match reduce_branch_from_f(d, brs, 0, (n - 1) as nat) {
                            None => None,
                            Some(None) => Some(None),
                            Some(Some((i, b))) => Some(
                                Some(
                                    STerm::Match(
                                        Box::new(sc),
                                        Box::new(rt),
                                        brs.update(i, SBranch { ctor: brs[i].ctor, bound: brs[i].bound, body: b }),
                                    ),
                                ),
                            ),
                        },
                    },
                },
            },
        }
    }
}

/// One reduction step with fuel `n`: `Some(None)` for a normal form, `Some(Some(r))` for
/// the reduct `r`, `None` when the fuel ran out.
pub open spec fn reduce_step_f(d: Map<Id, STerm>, t: STerm, n: nat) -> Option<Option<STerm>>
    decreases n, 0nat,
{
    if n == 0 {
        None
    } else {
        match t {
            STerm::Sort(_) => Some(None),
            STerm::Var(_) => Some(None),
            STerm::Const(c) => if d.contains_key(c) {
                Some(Some(d[c]))
            } else {
                Some(None)
            },
            STerm::Prod(v, a, b) => match reduce_step_f(d, *a, (n - 1) as nat) {
                None => None,
                Some(Some(a2)) => Some(Some(STerm::Prod(v, Box::new(a2), b))),
                Some(None) => match reduce_step_f(d, *b, (n - 1) as nat) {
                    None => None,
                    Some(Some(b2)) => Some(Some(STerm::Prod(v, a, Box::new(b2)))),
                    Some(None) => Some(None),
                },
            },
            STerm::Lam(v, a, b) => match reduce_step_f(d, *a, (n - 1) as nat) {
                None => None,
                Some(Some(a2)) => Some(Some(STerm::Lam(v, Box::new(a2), b))),
                Some(None) => match reduce_step_f(d, *b, (n - 1) as nat) {
                    None => None,
                    Some(Some(b2)) => Some(Some(STerm::Lam(v, a, Box::new(b2)))),
                    Some(None) => Some(None),
                },
            },
            STerm::App(f, args) => if (*f is Lam) && args.len() > 0 {
                Some(Some(beta(*(*f)->Lam_2, (*f)->Lam_0, args)))
            } else {
                match reduce_step_f(d, *f, (n - 1) as nat) {
                    None => None,
                    Some(Some(f2)) => Some(Some(STerm::App(Box::new(f2), args))),
                    Some(None) => match reduce_from_f(d, args, 0, (n - 1) as nat) {
                        None => None,
                        Some(None) => Some(None),
                        Some(Some((i, a))) => Some(Some(STerm::App(f, args.update(i, a)))),
                    },
                }
            },
            STerm::LetIn(v, a, _, b) => Some(Some(subst(*b, Map::empty().insert(v, *a)))),
            STerm::Match(sc, rt, brs) => reduce_case_f(d, *sc, *rt, brs, (n - 1) as nat),
        }
    }
}

/// The first of `s[i..]` that takes a step, with its position and reduct.
pub open spec fn reduce_from_f(d: Map<Id, STerm>, s: Seq<STerm>, i: int, n: nat) -> Option<Option<(int, STerm)>>
    decreases n, s.len() - i,
{
    if i < 0 || i >= s.len() {
        Some(None)
    } else {
        match reduce_step_f(d, s[i], n) {
            None => None,
            Some(Some(r)) => Some(Some((i, r))),
            Some(None) => reduce_from_f(d, s, i + 1, n),
        }
    }
}

/// The first branch of `brs[i..]` whose body takes a step, with its position and reduct.
pub open spec fn reduce_branch_from_f(d: Map<Id, STerm>, brs: Seq<SBranch>, i: int, n: nat) -> Option<Option<(int, STerm)>>
    decreases n, brs.len() - i,
{
    if i < 0 || i >= brs.len() {
        Some(None)
    } else {
        match reduce_step_f(d, brs[i].body, n) {
            None => None,
            Some(Some(r)) => Some(Some((i, r))),
            Some(None) => reduce_branch_from_f(d, brs, i + 1, n),
        }
    }
}

/// Normalization with fuel `n`: reduce until no step applies.
pub open spec fn normalize_f(d: Map<Id, STerm>, t: STerm, n: nat) -> Option<STerm>
    decreases n,
{
    if n == 0 {
        None
    } else {
        match reduce_step_f(d, t, n) {
            None => None,
            Some(None) => Some(t),
            Some(Some(r)) => normalize_f(d, r, (n - 1) as nat),
        }
    }
}


// More fuel never changes a result that was reached.

pub proof fn lemma_whnf_mono(d: Map<Id, STerm>, t: STerm, n: nat)
    requires
        whnf_f(d, t, n) is Some,
    ensures
        whnf_f(d, t, n + 1) == whnf_f(d, t, n),
    decreases n, 0nat,
{
    let m = (n - 1) as nat;
    match t {
        STerm::App(f, args) => {
            lemma_whnf_mono(d, *f, m);
        },
        STerm::Match(sc, rt, brs) => {
            lemma_case_mono(d, *sc, *rt, brs, m);
            if let Some(Some(r)) = reduce_case_f(d, *sc, *rt, brs, m) {
                lemma_whnf_mono(d, r, m);
            }
        },
        STerm::Const(c) => {
            if d.contains_key(c) {
                lemma_whnf_mono(d, d[c], m);
            }
        },
        _ => {},
    }
}

pub proof fn lemma_case_mono(d: Map<Id, STerm>, sc: STerm, rt: STerm, brs: Seq<SBranch>, n: nat)
    requires
        reduce_case_f(d, sc, rt, brs, n) is Some,
    ensures
        reduce_case_f(d, sc, rt, brs, n + 1) == reduce_case_f(d, sc, rt, brs, n),
    decreases n, 0nat,
{
    let m = (n - 1) as nat;
    lemma_whnf_mono(d, sc, m);
    let s = whnf_f(d, sc, m)->0;
    if iota(s, brs) is None {
        lemma_step_mono(d, sc, m);
        if reduce_step_f(d, sc, m) == Some(None::<STerm>) {
            lemma_step_mono(d, rt, m);
            if reduce_step_f(d, rt, m) == Some(None::<STerm>) {
                lemma_branch_from_mono(d, brs, 0, m);
            }
        }
    }
}

pub proof fn lemma_step_mono(d: Map<Id, STerm>, t: STerm, n: nat)
    requires
        reduce_step_f(d, t, n) is Some,
    ensures
        reduce_step_f(d, t, n + 1) == reduce_step_f(d, t, n),
    decreases n, 0nat,
{
    let m = (n - 1) as nat;
    match t {
        STerm::Prod(v, a, b) => {
            lemma_step_mono(d, *a, m);
            if reduce_step_f(d, *a, m) == Some(None::<STerm>) {
                lemma_step_mono(d, *b, m);
            }
        },
        STerm::Lam(v, a, b) => {
            lemma_step_mono(d, *a, m);
            if reduce_step_f(d, *a, m) == Some(None::<STerm>) {
                lemma_step_mono(d, *b, m);
            }
        },
        STerm::App(f, args) => {
            if !((*f is Lam) && args.len() > 0) {
                lemma_step_mono(d, *f, m);
                if reduce_step_f(d, *f, m) == Some(None::<STerm>) {
                    lemma_from_mono(d, args, 0, m);
                }
            }
        },
        STerm::Match(sc, rt, brs) => {
            lemma_case_mono(d, *sc, *rt, brs, m);
        },
        _ => {},
    }
}

pub proof fn lemma_from_mono(d: Map<Id, STerm>, s: Seq<STerm>, i: int, n: nat)
    requires
        reduce_from_f(d, s, i, n) is Some,
    ensures
        reduce_from_f(d, s, i, n + 1) == reduce_from_f(d, s, i, n),
    decreases n, s.len() - i,
{
    if 0 <= i < s.len() {
        lemma_step_mono(d, s[i], n);
        if reduce_step_f(d, s[i], n) == Some(None::<STerm>) {
            lemma_from_mono(d, s, i + 1, n);
        }
    }
}

pub proof fn lemma_branch_from_mono(d: Map<Id, STerm>, brs: Seq<SBranch>, i: int, n: nat)
    requires
        reduce_branch_from_f(d, brs, i, n) is Some,
    ensures
        reduce_branch_from_f(d, brs, i, n + 1) == reduce_branch_from_f(d, brs, i, n),
    decreases n, brs.len() - i,
{
    if 0 <= i < brs.len() {
        lemma_step_mono(d, brs[i].body, n);
        if reduce_step_f(d, brs[i].body, n) == Some(None::<STerm>) {
            lemma_branch_from_mono(d, brs, i + 1, n);
        }
    }
}

pub proof fn lemma_normalize_mono(d: Map<Id, STerm>, t: STerm, n: nat)
    requires
        normalize_f(d, t, n) is Some,
    ensures
        normalize_f(d, t, n + 1) == normalize_f(d, t, n),
    decreases n,
{
    lemma_step_mono(d, t, n);
    if let Some(Some(r)) = reduce_step_f(d, t, n) {
        lemma_normalize_mono(d, r, (n - 1) as nat);
    }
}


pub proof fn lemma_whnf_fuel(d: Map<Id, STerm>, t: STerm, n: nat, m: nat)
    requires
        whnf_f(d, t, n) is Some,
        n <= m,
    ensures
        whnf_f(d, t, m) == whnf_f(d, t, n),
    decreases m - n,
{
    if n < m {
        lemma_whnf_mono(d, t, n);
        lemma_whnf_fuel(d, t, n + 1, m);
    }
}

pub proof fn lemma_step_fuel(d: Map<Id, STerm>, t: STerm, n: nat, m: nat)
    requires
        reduce_step_f(d, t, n) is Some,
        n <= m,
    ensures
        reduce_step_f(d, t, m) == reduce_step_f(d, t, n),
    decreases m - n,
{
    if n < m {
        lemma_step_mono(d, t, n);
        lemma_step_fuel(d, t, n + 1, m);
    }
}

pub proof fn lemma_normalize_fuel(d: Map<Id, STerm>, t: STerm, n: nat, m: nat)
    requires
        normalize_f(d, t, n) is Some,
        n <= m,
    ensures
        normalize_f(d, t, m) == normalize_f(d, t, n),
    decreases m - n,
{
    if n < m {
        lemma_normalize_mono(d, t, n);
        lemma_normalize_fuel(d, t, n + 1, m);
    }
}

/// Weak head reduction of `t` ends.
pub open spec fn whnf_terminates(d: Map<Id, STerm>, t: STerm) -> bool {
    exists|n: nat| #[trigger] whnf_f(d, t, n) is Some
}

/// The weak head form of `t`, where reduction ends.
pub open spec fn whnf_spec(d: Map<Id, STerm>, t: STerm) -> STerm {
    whnf_f(d, t, choose|n: nat| #[trigger] whnf_f(d, t, n) is Some)->0
}

/// Deciding whether `t` takes a reduction step ends.
pub open spec fn step_terminates(d: Map<Id, STerm>, t: STerm) -> bool {
    exists|n: nat| #[trigger] reduce_step_f(d, t, n) is Some
}

/// The reduct of `t` by one step, or `None` when `t` is in normal form.
pub open spec fn step_spec(d: Map<Id, STerm>, t: STerm) -> Option<STerm> {
    reduce_step_f(d, t, choose|n: nat| #[trigger] reduce_step_f(d, t, n) is Some)->0
}

/// Reducing `t` step by step reaches a normal form.
pub open spec fn normalizes(d: Map<Id, STerm>, t: STerm) -> bool {
    exists|n: nat| #[trigger] normalize_f(d, t, n) is Some
}

/// The normal form of `t`.
pub open spec fn normalize_spec(d: Map<Id, STerm>, t: STerm) -> STerm {
    normalize_f(d, t, choose|n: nat| #[trigger] normalize_f(d, t, n) is Some)->0
}

pub proof fn lemma_whnf_spec(d: Map<Id, STerm>, t: STerm, n: nat)
    requires
        whnf_f(d, t, n) is Some,
    ensures
        whnf_terminates(d, t),
        whnf_spec(d, t) == whnf_f(d, t, n)->0,
{
    let m = choose|m: nat| #[trigger] whnf_f(d, t, m) is Some;
    if m <= n {
        lemma_whnf_fuel(d, t, m, n);
    } else {
        lemma_whnf_fuel(d, t, n, m);
    }
}

pub proof fn lemma_step_spec(d: Map<Id, STerm>, t: STerm, n: nat)
    requires
        reduce_step_f(d, t, n) is Some,
    ensures
        step_terminates(d, t),
        step_spec(d, t) == reduce_step_f(d, t, n)->0,
{
    let m = choose|m: nat| #[trigger] reduce_step_f(d, t, m) is Some;
    if m <= n {
        lemma_step_fuel(d, t, m, n);
    } else {
        lemma_step_fuel(d, t, n, m);
    }
}

pub proof fn lemma_normalize_spec(d: Map<Id, STerm>, t: STerm, n: nat)
    requires
        normalize_f(d, t, n) is Some,
    ensures
        normalizes(d, t),
        normalize_spec(d, t) == normalize_f(d, t, n)->0,
{
    let m = choose|m: nat| #[trigger] normalize_f(d, t, m) is Some;
    if m <= n {
        lemma_normalize_fuel(d, t, m, n);
    } else {
        lemma_normalize_fuel(d, t, n, m);
    }
}

pub proof fn lemma_find_branch(brs: Seq<SBranch>, c: Id)
    ensures
        match find_branch(brs, c) {
            Some(i) => 0 <= i < brs.len() && brs[i].ctor == c && forall|j: int| 0 <= j < i ==> brs[j].ctor != c,
            None => forall|j: int| 0 <= j < brs.len() ==> brs[j].ctor != c,
        },
    decreases brs.len(),
{
    if brs.len() > 0 {
        lemma_find_branch(brs.drop_first(), c);
        assert forall|j: int| 1 <= j < brs.len() implies brs[j] == brs.drop_first()[j - 1] by {}
    }
}

pub proof fn lemma_reduce_from_range(d: Map<Id, STerm>, s: Seq<STerm>, i: int, n: nat)
    ensures
        reduce_from_f(d, s, i, n) matches Some(Some((j, t))) ==> i <= j < s.len() && 0 <= j,
    decreases s.len() - i,
{
    if 0 <= i < s.len() {
        lemma_reduce_from_range(d, s, i + 1, n);
    }
}

pub proof fn lemma_reduce_branch_from_range(d: Map<Id, STerm>, brs: Seq<SBranch>, i: int, n: nat)
    ensures
        reduce_branch_from_f(d, brs, i, n) matches Some(Some((j, t))) ==> i <= j < brs.len() && 0 <= j,
    decreases brs.len() - i,
{
    if 0 <= i < brs.len() {
        lemma_reduce_branch_from_range(d, brs, i + 1, n);
    }
}

proof fn lemma_normalize_result(d: Map<Id, STerm>, t: STerm, n: nat) -> (k: nat)
    requires
        normalize_f(d, t, n) is Some,
    ensures
        k > 0,
        reduce_step_f(d, normalize_f(d, t, n)->0, k) == Some(None::<STerm>),
    decreases n,
{
    match reduce_step_f(d, t, n) {
        Some(Some(r)) => lemma_normalize_result(d, r, (n - 1) as nat),
        _ => n,
    }
}

/// A term that takes no step is its own normal form.
pub proof fn lemma_normal_form_fixed(d: Map<Id, STerm>, t: STerm)
    requires
        step_terminates(d, t),
        step_spec(d, t) is None,
    ensures
        normalizes(d, t),
        normalize_spec(d, t) == t,
{
    let k = choose|k: nat| #[trigger] reduce_step_f(d, t, k) is Some;
    assert(normalize_f(d, t, k) == Some(t));
    lemma_normalize_spec(d, t, k);
}

/// The normal form of a term takes no step, and normalizing it again gives it back.
pub proof fn lemma_normalize_is_normal(d: Map<Id, STerm>, t: STerm)
    requires
        normalizes(d, t),
    ensures
        step_terminates(d, normalize_spec(d, t)),
        step_spec(d, normalize_spec(d, t)) is None,
        normalizes(d, normalize_spec(d, t)),
        normalize_spec(d, normalize_spec(d, t)) == normalize_spec(d, t),
{
    let n = choose|n: nat| #[trigger] normalize_f(d, t, n) is Some;
    let k = lemma_normalize_result(d, t, n);
    let nf = normalize_f(d, t, n)->0;
    lemma_step_spec(d, nf, k);
    lemma_normal_form_fixed(d, nf);
}

/// Sorts, variables and constants without a definition take no step.
pub proof fn lemma_atoms_are_normal(d: Map<Id, STerm>, t: STerm)
    requires
        t is Sort || t is Var || (t is Const && !d.contains_key(t->Const_0)),
    ensures
        step_terminates(d, t),
        step_spec(d, t) is None,
        normalizes(d, t),
        normalize_spec(d, t) == t,
        whnf_terminates(d, t),
        whnf_spec(d, t) == t,
{
    lemma_step_spec(d, t, 1);
    lemma_normal_form_fixed(d, t);
    lemma_whnf_spec(d, t, 1);
}

/// β: `(λ x : A. body) arg` steps to, and has the weak head form, `body[x := arg]`.
pub proof fn lemma_beta(d: Map<Id, STerm>, x: Id, a: STerm, body: STerm, arg: STerm)
    ensures
        step_terminates(d, STerm::App(Box::new(STerm::Lam(x, Box::new(a), Box::new(body))), seq![arg])),
        step_spec(d, STerm::App(Box::new(STerm::Lam(x, Box::new(a), Box::new(body))), seq![arg]))
            == Some(subst(body, Map::empty().insert(x, arg))),
        whnf_terminates(d, STerm::App(Box::new(STerm::Lam(x, Box::new(a), Box::new(body))), seq![arg])),
        whnf_spec(d, STerm::App(Box::new(STerm::Lam(x, Box::new(a), Box::new(body))), seq![arg]))
            == subst(body, Map::empty().insert(x, arg)),
{
    let t = STerm::App(Box::new(STerm::Lam(x, Box::new(a), Box::new(body))), seq![arg]);
    lemma_step_spec(d, t, 1);
    assert(whnf_f(d, STerm::Lam(x, Box::new(a), Box::new(body)), 1) is Some);
    lemma_whnf_spec(d, t, 2);
}

/// ζ: `let x := v : T in body` steps to, and has the weak head form, `body[x := v]`.
pub proof fn lemma_zeta(d: Map<Id, STerm>, x: Id, v: STerm, ty: STerm, body: STerm)
    ensures
        step_terminates(d, STerm::LetIn(x, Box::new(v), Box::new(ty), Box::new(body))),
        step_spec(d, STerm::LetIn(x, Box::new(v), Box::new(ty), Box::new(body)))
            == Some(subst(body, Map::empty().insert(x, v))),
        whnf_terminates(d, STerm::LetIn(x, Box::new(v), Box::new(ty), Box::new(body))),
        whnf_spec(d, STerm::LetIn(x, Box::new(v), Box::new(ty), Box::new(body)))
            == subst(body, Map::empty().insert(x, v)),
{
    let t = STerm::LetIn(x, Box::new(v), Box::new(ty), Box::new(body));
    lemma_step_spec(d, t, 1);
    lemma_whnf_spec(d, t, 1);
}

/// δ: a defined constant steps to its definition.
pub proof fn lemma_delta(d: Map<Id, STerm>, c: Id)
    requires
        d.contains_key(c),
    ensures
        step_terminates(d, STerm::Const(c)),
        step_spec(d, STerm::Const(c)) == Some(d[c]),
{
    lemma_step_spec(d, STerm::Const(c), 1);
}

/// The definitions that δ-reduction unfolds: the constants of `env` that have a body.
pub open spec fn defs_of(env: Option<&GlobalEnvironment>) -> Map<Id, STerm> {
    match env {
        Some(e) => const_defs(e.constants()),
        None => Map::empty(),
    }
}

/// The bodies of the constants that have one.
pub open spec fn const_defs(consts: Map<Id, SConstant>) -> Map<Id, STerm> {
    Map::new(|k: Id| consts.contains_key(k) && consts[k].body is Some, |k: Id| consts[k].body->0)
}

/// The value of an optional term.
pub open spec fn opt_view(r: Option<Term>) -> Option<STerm> {
    match r {
        Some(t) => Some(t@),
        None => None,
    }
}

fn unfold_constant(env: Option<&GlobalEnvironment>, c: Id) -> (r: Option<Term>)
    ensures
        opt_view(r) == (if defs_of(env).contains_key(c) {
            Some(defs_of(env)[c])
        } else {
            None
        }),
{
    match env {
        Some(e) => match e.get_constant(c) {
            Some(def) => match &def.body {
                Some(b) => Some(clone_term(b)),
                None => None,
            },
            None => None,
        },
        None => None,
    }
}

/// Copies `v[from..]`.
fn clone_terms_from(v: &Vec<Term>, from: usize) -> (r: Vec<Term>)
    requires
        from <= v@.len(),
    ensures
        view_terms(r@) == view_terms(v@).skip(from as int),
{
    proof {
        lemma_view_terms(v@);
    }
    let mut r: Vec<Term> = Vec::new();
    let mut i: usize = from;
    while i < v.len()
        invariant
            from <= i <= v@.len(),
            r@.len() == i - from,
            forall|j: int| 0 <= j < r@.len() ==> #[trigger] r@[j]@ == v@[j + from]@,
        decreases v.len() - i,
    {
        r.push(clone_term(&v[i]));
        i = i + 1;
    }
    proof {
        lemma_view_terms(r@);
        assert(view_terms(r@) =~= view_terms(v@).skip(from as int));
    }
    r
}

/// Sets position `i` of a vector of terms.
proof fn lemma_view_terms_update(s: Seq<Term>, i: int, t: Term)
    requires
        0 <= i < s.len(),
    ensures
        view_terms(s.update(i, t)) == view_terms(s).update(i, t@),
{
    lemma_view_terms(s);
    lemma_view_terms(s.update(i, t));
    assert(view_terms(s.update(i, t)) =~= view_terms(s).update(i, t@));
}

proof fn lemma_view_branches_update(s: Seq<MatchBranch>, i: int, b: MatchBranch)
    requires
        0 <= i < s.len(),
    ensures
        view_branches(s.update(i, b)) == view_branches(s).update(i, view_branch(b)),
{
    lemma_view_branches(s);
    lemma_view_branches(s.update(i, b));
    assert(view_branches(s.update(i, b)) =~= view_branches(s).update(i, view_branch(b)));
}

/// β-reduces `(λ var. body) args` by its first argument.
fn beta_exec(body: &Term, var: Id, args: &Vec<Term>) -> (r: Term)
    requires
        args@.len() > 0,
    ensures
        r@ == beta(body@, var, view_terms(args@)),
{
    proof {
        lemma_view_terms(args@);
    }
    let mut s = Substitution::new();
    s.add(var, Rc::new(clone_term(&args[0])));
    let reduced = substitute(body, &s);
    if args.len() > 1 {
        Term::Application(TermApplication { f: Rc::new(reduced), args: clone_terms_from(args, 1) })
    } else {
        reduced
    }
}

/// The position of the first branch for constructor `c`.
fn find_branch_exec(brs: &Vec<MatchBranch>, c: Id) -> (r: Option<usize>)
    ensures
        r matches Some(i) ==> find_branch(view_branches(brs@), c) == Some(i as int) && i < brs@.len(),
        r is None ==> find_branch(view_branches(brs@), c) is None,
{
    proof {
        lemma_view_branches(brs@);
        lemma_find_branch(view_branches(brs@), c);
    }
    let ghost vb = view_branches(brs@);
    assert(vb.skip(0) =~= vb);
    let mut i: usize = 0;
    while i < brs.len()
        invariant
            i <= brs@.len(),
            vb == view_branches(brs@),
            vb.len() == brs@.len(),
            forall|k: int| 0 <= k < brs@.len() ==> #[trigger] vb[k] == view_branch(brs@[k]),
            find_branch(vb.skip(i as int), c) matches Some(j) ==> find_branch(vb, c) == Some(j + i),
            find_branch(vb.skip(i as int), c) is None ==> find_branch(vb, c) is None,
        decreases brs.len() - i,
    {
        assert(vb.skip(i as int)[0] == vb[i as int]);
        assert(vb.skip(i as int).drop_first() =~= vb.skip(i + 1));
        if brs[i].constructor_id == c {
            proof {
                lemma_find_branch(vb, c);
            }
            return Some(i);
        }
        i = i + 1;
    }
    None
}

/// The substitution that sends the bound variables to the arguments, position by position.
fn zip_substitution(bound: &Vec<Id>, args: &Vec<Term>) -> (r: Substitution)
    requires
        bound@.len() == args@.len(),
    ensures
        r@ == zip_subst(bound@, view_terms(args@)),
{
    proof {
        lemma_view_terms(args@);
    }
    let ghost va = view_terms(args@);
    let mut s = Substitution::new();
    let mut k: usize = 0;
    assert(zip_subst(bound@.take(0), va.take(0)) =~= Map::<Id, STerm>::empty());
    while k < bound.len()
        invariant
            k <= bound@.len(),
            bound@.len() == args@.len(),
            va == view_terms(args@),
            va.len() == args@.len(),
            forall|j: int| 0 <= j < args@.len() ==> #[trigger] va[j] == args@[j]@,
            s@ == zip_subst(bound@.take(k as int), va.take(k as int)),
        decreases bound.len() - k,
    {
        assert(bound@.take(k + 1).drop_last() =~= bound@.take(k as int));
        assert(va.take(k + 1).drop_last() =~= va.take(k as int));
        assert(bound@.take(k + 1).last() == bound@[k as int]);
        assert(va.take(k + 1).last() == va[k as int]);
        s.add(bound[k], Rc::new(clone_term(&args[k])));
        k = k + 1;
    }
    assert(bound@.take(k as int) =~= bound@);
    assert(va.take(k as int) =~= va);
    s
}

fn whnf_in(term: &Term, env: Option<&GlobalEnvironment>, Ghost(n): Ghost<nat>) -> (r: Term)
    requires
        whnf_f(defs_of(env), term@, n) is Some,
    ensures
        r@ == whnf_f(defs_of(env), term@, n)->0,
    decreases n, 0nat,
{
    let ghost m = (n - 1) as nat;
    match term {
        Term::Application(app) => {
            let f_whnf = whnf_in(&app.f, env, Ghost(m));
            let lam = match &f_whnf {
                Term::Lambda(lambda) => app.args.len() > 0,
                _ => false,
            };
            if lam {
                match &f_whnf {
                    Term::Lambda(lambda) => beta_exec(&lambda.target, lambda.var, &app.args),
                    _ => Term::Application(
                        TermApplication { f: Rc::new(f_whnf), args: crate::term::clone_terms(&app.args) },
                    ),
                }
            } else {
                Term::Application(
                    TermApplication { f: Rc::new(f_whnf), args: crate::term::clone_terms(&app.args) },
                )
            }
        },
        Term::LetIn(let_in) => {
            let mut s = Substitution::new();
            s.add(let_in.var, Rc::new(clone_term(&let_in.term)));
            substitute(&let_in.body, &s)
        },
        Term::Match(case) => match reduce_case_in(case, env, Ghost(m)) {
            Some(r) => whnf_in(&r, env, Ghost(m)),
            None => clone_term(term),
        },
        Term::Constant(c) => match unfold_constant(env, c.id) {
            Some(b) => whnf_in(&b, env, Ghost(m)),
            None => clone_term(term),
        },
        _ => clone_term(term),
    }
}

fn reduce_case_in(case: &TermMatch, env: Option<&GlobalEnvironment>, Ghost(n): Ghost<nat>) -> (r: Option<Term>)
    requires
        reduce_case_f(defs_of(env), (*case.scrutinee)@, (*case.return_type)@, view_branches(case.branches@), n) is Some,
    ensures
        opt_view(r) == reduce_case_f(
            defs_of(env),
            (*case.scrutinee)@,
            (*case.return_type)@,
            view_branches(case.branches@),
            n,
        )->0,
    decreases n, 0nat,
{
    let ghost m = (n - 1) as nat;
    let ghost vb = view_branches(case.branches@);
    proof {
        lemma_view_branches(case.branches@);
    }
    let s = whnf_in(&case.scrutinee, env, Ghost(m));
    match &s {
        Term::Constant(c) => {
            match find_branch_exec(&case.branches, c.id) {
                Some(i) => {
                    let b = &case.branches[i];
                    assert(vb[i as int] == view_branch(case.branches@[i as int]));
                    assert(s@ == STerm::Const(c.id));
                    assert(find_branch(vb, c.id) == Some(i as int));
                    assert(vb[i as int].bound == b.bound_vars@);
                    if b.bound_vars.len() != 0 {
                        assert(iota(s@, vb) == Some(None::<STerm>));
                        return None;
                    } else {
                        assert(iota(s@, vb) == Some(Some((*b.body)@)));
                        return Some(clone_term(&b.body));
                    }
                },
                None => {
                    assert(s@ == STerm::Const(c.id));
                    assert(iota(s@, vb) is None);
                },
            }
        },
        Term::Application(app) => {
            match &*app.f {
                Term::Constant(c) => {
                    match find_branch_exec(&case.branches, c.id) {
                        Some(i) => {
                            let b = &case.branches[i];
                            assert(vb[i as int] == view_branch(case.branches@[i as int]));
                            proof {
                                lemma_view_terms(app.args@);
                            }
                            assert((*app.f)@ == STerm::Const(c.id));
                            assert(s@ == STerm::App(Box::new(STerm::Const(c.id)), view_terms(app.args@)));
                            assert(vb[i as int].bound == b.bound_vars@);
                            if b.bound_vars.len() != app.args.len() {
                                assert(iota(s@, vb) == Some(None::<STerm>));
                                return None;
                            } else {
                                let sub = zip_substitution(&b.bound_vars, &app.args);
                                let res = substitute(&b.body, &sub);
                                assert(iota(s@, vb) == Some(Some(res@)));
                                return Some(res);
                            }
                        },
                        None => {
                            assert((*app.f)@ == STerm::Const(c.id));
                            assert(iota(s@, vb) is None);
                        },
                    }
                },
                _ => {
                    assert(!((*app.f)@ is Const));
                    assert(iota(s@, vb) is None);
                },
            }
        },
        _ => {
            assert(!(s@ is Const) && !(s@ is App));
            assert(iota(s@, vb) is None);
        },
    }
    assert(iota(s@, vb) is None);
    match reduce_step_in(&case.scrutinee, env, Ghost(m)) {
        Some(r) => {
            return Some(
                Term::Match(
                    TermMatch {
                        scrutinee: Rc::new(r),
                        return_type: Rc::new(clone_term(&case.return_type)),
                        branches: crate::term::clone_branches(&case.branches),
                    },
                ),
            );
        },
        None => {},
    }
    match reduce_step_in(&case.return_type, env, Ghost(m)) {
        Some(r) => {
            return Some(
                Term::Match(
                    TermMatch {
                        scrutinee: Rc::new(clone_term(&case.scrutinee)),
                        return_type: Rc::new(r),
                        branches: crate::term::clone_branches(&case.branches),
                    },
                ),
            );
        },
        None => {},
    }
    match reduce_branch_from_in(&case.branches, env, Ghost(m)) {
        Some((i, body)) => {
            let mut brs = crate::term::clone_branches(&case.branches);
            let nb = MatchBranch {
                constructor_id: case.branches[i].constructor_id,
                bound_vars: clone_ids(&case.branches[i].bound_vars),
                body: Rc::new(body),
            };
            proof {
                lemma_view_branches(brs@);
                lemma_view_branches_update(brs@, i as int, nb);
            }
            brs.set(i, nb);
            proof {
                assert(view_branches(brs@) =~= vb.update(
                    i as int,
                    SBranch { ctor: vb[i as int].ctor, bound: vb[i as int].bound, body: body@ },
                ));
            }
            Some(
                Term::Match(
                    TermMatch {
                        scrutinee: Rc::new(clone_term(&case.scrutinee)),
                        return_type: Rc::new(clone_term(&case.return_type)),
                        branches: brs,
                    },
                ),
            )
        },
        None => None,
    }
}

fn reduce_step_in(term: &Term, env: Option<&GlobalEnvironment>, Ghost(n): Ghost<nat>) -> (r: Option<Term>)
    requires
        reduce_step_f(defs_of(env), term@, n) is Some,
    ensures
        opt_view(r) == reduce_step_f(defs_of(env), term@, n)->0,
    decreases n, 0nat,
{
    let ghost m = (n - 1) as nat;
    match term {
        Term::Sort(_) => None,
        Term::Variable(_) => None,
        Term::Constant(c) => unfold_constant(env, c.id),
        Term::Product(product) => {
            match reduce_step_in(&product.source, env, Ghost(m)) {
                Some(source) => {
                    return Some(
                        Term::Product(
                            TermProduct {
                                var: product.var,
                                source: Rc::new(source),
                                target: Rc::new(clone_term(&product.target)),
                            },
                        ),
                    );
                },
                None => {},
            }
            match reduce_step_in(&product.target, env, Ghost(m)) {
                Some(target) => Some(
                    Term::Product(
                        TermProduct {
                            var: product.var,
                            source: Rc::new(clone_term(&product.source)),
                            target: Rc::new(target),
                        },
                    ),
                ),
                None => None,
            }
        },
        Term::Lambda(lambda) => {
            match reduce_step_in(&lambda.source_ty, env, Ghost(m)) {
                Some(source_ty) => {
                    return Some(
                        Term::Lambda(
                            TermLambda {
                                var: lambda.var,
                                source_ty: Rc::new(source_ty),
                                target: Rc::new(clone_term(&lambda.target)),
                            },
                        ),
                    );
                },
                None => {},
            }
            match reduce_step_in(&lambda.target, env, Ghost(m)) {
                Some(target) => Some(
                    Term::Lambda(
                        TermLambda {
                            var: lambda.var,
                            source_ty: Rc::new(clone_term(&lambda.source_ty)),
                            target: Rc::new(target),
                        },
                    ),
                ),
                None => None,
            }
        },
        Term::Application(app) => {
            proof {
                lemma_view_terms(app.args@);
            }
            match &*app.f {
                Term::Lambda(lambda) => {
                    if app.args.len() > 0 {
                        assert(term@ == STerm::App(Box::new((*app.f)@), view_terms(app.args@)));
                        assert((*app.f)@ == STerm::Lam(lambda.var, Box::new((*lambda.source_ty)@), Box::new((*lambda.target)@)));
                        assert(view_terms(app.args@).len() > 0);
                        assert(reduce_step_f(defs_of(env), term@, n) == Some(Some(beta((*lambda.target)@, lambda.var, view_terms(app.args@)))));
                        return Some(beta_exec(&lambda.target, lambda.var, &app.args));
                    }
                },
                _ => {},
            }
            match reduce_step_in(&app.f, env, Ghost(m)) {
                Some(f) => {
                    return Some(
                        Term::Application(
                            TermApplication { f: Rc::new(f), args: crate::term::clone_terms(&app.args) },
                        ),
                    );
                },
                None => {},
            }
            match reduce_from_in(&app.args, env, Ghost(m)) {
                Some((i, a)) => {
                    let mut new_args = crate::term::clone_terms(&app.args);
                    proof {
                        lemma_view_terms(new_args@);
                        lemma_view_terms(app.args@);
                        lemma_view_terms_update(new_args@, i as int, a);
                    }
                    new_args.set(i, a);
                    Some(
                        Term::Application(
                            TermApplication { f: Rc::new(clone_term(&app.f)), args: new_args },
                        ),
                    )
                },
                None => None,
            }
        },
        Term::LetIn(let_in) => {
            let mut s = Substitution::new();
            s.add(let_in.var, Rc::new(clone_term(&let_in.term)));
            Some(substitute(&let_in.body, &s))
        },
        Term::Match(case) => reduce_case_in(case, env, Ghost(m)),
    }
}

fn reduce_from_in(args: &Vec<Term>, env: Option<&GlobalEnvironment>, Ghost(n): Ghost<nat>) -> (r: Option<(usize, Term)>)
    requires
        reduce_from_f(defs_of(env), view_terms(args@), 0, n) is Some,
    ensures
        match reduce_from_f(defs_of(env), view_terms(args@), 0, n)->0 {
            Some((i, t)) => r matches Some((j, u)) && j == i && u@ == t && 0 <= i < args@.len(),
            None => r is None,
        },
    decreases n, 1nat,
{
    proof {
        lemma_view_terms(args@);
    }
    let ghost s = view_terms(args@);
    proof {
        lemma_reduce_from_range(defs_of(env), s, 0, n);
    }
    let mut i: usize = 0;
    while i < args.len()
        invariant
            i <= args@.len(),
            s == view_terms(args@),
            s.len() == args@.len(),
            forall|k: int| 0 <= k < args@.len() ==> #[trigger] s[k] == args@[k]@,
            reduce_from_f(defs_of(env), s, i as int, n) == reduce_from_f(defs_of(env), s, 0, n),
            reduce_from_f(defs_of(env), s, 0, n) is Some,
            reduce_from_f(defs_of(env), s, 0, n)->0 matches Some((j, t)) ==> i <= j < s.len(),
        decreases args.len() - i,
    {
        match reduce_step_in(&args[i], env, Ghost(n)) {
            Some(t) => {
                return Some((i, t));
            },
            None => {},
        }
        proof {
            lemma_reduce_from_range(defs_of(env), s, i + 1, n);
        }
        i = i + 1;
    }
    None
}

fn reduce_branch_from_in(brs: &Vec<MatchBranch>, env: Option<&GlobalEnvironment>, Ghost(n): Ghost<nat>) -> (r: Option<(usize, Term)>)
    requires
        reduce_branch_from_f(defs_of(env), view_branches(brs@), 0, n) is Some,
    ensures
        match reduce_branch_from_f(defs_of(env), view_branches(brs@), 0, n)->0 {
            Some((i, t)) => r matches Some((j, u)) && j == i && u@ == t && 0 <= i < brs@.len(),
            None => r is None,
        },
    decreases n, 1nat,
{
    proof {
        lemma_view_branches(brs@);
    }
    let ghost s = view_branches(brs@);
    proof {
        lemma_reduce_branch_from_range(defs_of(env), s, 0, n);
    }
    let mut i: usize = 0;
    while i < brs.len()
        invariant
            i <= brs@.len(),
            s == view_branches(brs@),
            s.len() == brs@.len(),
            forall|k: int| 0 <= k < brs@.len() ==> #[trigger] s[k] == view_branch(brs@[k]),
            reduce_branch_from_f(defs_of(env), s, i as int, n) == reduce_branch_from_f(defs_of(env), s, 0, n),
            reduce_branch_from_f(defs_of(env), s, 0, n) is Some,
            reduce_branch_from_f(defs_of(env), s, 0, n)->0 matches Some((j, t)) ==> i <= j < s.len(),
        decreases brs.len() - i,
    {
        match reduce_step_in(&brs[i].body, env, Ghost(n)) {
            Some(t) => {
                return Some((i, t));
            },
            None => {},
        }
        proof {
            lemma_reduce_branch_from_range(defs_of(env), s, i + 1, n);
        }
        i = i + 1;
    }
    None
}

fn normalize_in(term: &Term, env: Option<&GlobalEnvironment>, Ghost(n): Ghost<nat>) -> (r: Term)
    requires
        normalize_f(defs_of(env), term@, n) is Some,
    ensures
        r@ == normalize_f(defs_of(env), term@, n)->0,
{
    let mut current = clone_term(term);
    let ghost mut k = n;
    loop
        invariant
            normalize_f(defs_of(env), current@, k) == normalize_f(defs_of(env), term@, n),
            normalize_f(defs_of(env), current@, k) is Some,
        decreases k,
    {
        match reduce_step_in(&current, env, Ghost(k)) {
            Some(r) => {
                current = r;
                proof {
                    k = (k - 1) as nat;
                }
            },
            None => {
                return current;
            },
        }
    }
}


/// Performs one step of reduction on a term; returns `None` if the term is already in
/// normal form.
pub fn reduce_step(term: &Term) -> (r: Option<Term>)
    requires
        step_terminates(Map::empty(), term@),
    ensures
        opt_view(r) == step_spec(Map::empty(), term@),
{
    let ghost n = choose|n: nat| #[trigger] reduce_step_f(Map::empty(), term@, n) is Some;
    assert(defs_of(None) =~= Map::<Id, STerm>::empty());
    reduce_step_in(term, None, Ghost(n))
}

/// Reduces a term to its normal form.
pub fn normalize(term: &Term) -> (r: Term)
    requires
        normalizes(Map::empty(), term@),
    ensures
        r@ == normalize_spec(Map::empty(), term@),
{
    let ghost n = choose|n: nat| #[trigger] normalize_f(Map::empty(), term@, n) is Some;
    assert(defs_of(None) =~= Map::<Id, STerm>::empty());
    normalize_in(term, None, Ghost(n))
}

/// Weak head reduction: reduces the head of the term, performing at most one β-step of
/// an application and no reduction inside λ bodies.
pub fn whnf(term: &Term) -> (r: Term)
    requires
        whnf_terminates(Map::empty(), term@),
    ensures
        r@ == whnf_spec(Map::empty(), term@),
{
    let ghost n = choose|n: nat| #[trigger] whnf_f(Map::empty(), term@, n) is Some;
    assert(defs_of(None) =~= Map::<Id, STerm>::empty());
    whnf_in(term, None, Ghost(n))
}

/// Weak head reduction that also unfolds the constants that `env` defines.
pub fn whnf_with_env(term: &Term, env: &GlobalEnvironment) -> (r: Term)
    requires
        whnf_terminates(const_defs(env.constants()), term@),
    ensures
        r@ == whnf_spec(const_defs(env.constants()), term@),
{
    let ghost n = choose|n: nat| #[trigger] whnf_f(const_defs(env.constants()), term@, n) is Some;
    whnf_in(term, Some(env), Ghost(n))
}

/// Normalization that also unfolds the constants that `env` defines.
pub fn normalize_with_env(term: &Term, env: &GlobalEnvironment) -> (r: Term)
    requires
        normalizes(const_defs(env.constants()), term@),
    ensures
        r@ == normalize_spec(const_defs(env.constants()), term@),
{
    let ghost n = choose|n: nat| #[trigger] normalize_f(const_defs(env.constants()), term@, n) is Some;
    normalize_in(term, Some(env), Ghost(n))
}

pub(crate) fn whnf_env_fuel(term: &Term, env: &GlobalEnvironment, Ghost(n): Ghost<nat>) -> (r: Term)
    requires
        whnf_f(const_defs(env.constants()), term@, n) is Some,
    ensures
        r@ == whnf_f(const_defs(env.constants()), term@, n)->0,
{
    whnf_in(term, Some(env), Ghost(n))
}

pub(crate) fn normalize_env_fuel(term: &Term, env: &GlobalEnvironment, Ghost(n): Ghost<nat>) -> (r: Term)
    requires
        normalize_f(const_defs(env.constants()), term@, n) is Some,
    ensures
        r@ == normalize_f(const_defs(env.constants()), term@, n)->0,
{
    normalize_in(term, Some(env), Ghost(n))
}

} // verus!
