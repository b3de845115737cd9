use vstd::prelude::*;
use vstd::std_specs::cmp::{PartialEqSpec, PartialEqSpecImpl};

use crate::names::text_eq;
use crate::scope::{innermost, ScopeStack};

verus! {

broadcast use vstd::std_specs::vec::group_vec_axioms;

// Renaming of the logic language: each variable gets the identifier of the binding it
// refers to; binders (definition names, arrows, constructors, pattern variables) get fresh
// identifiers, innermost scope first.

/// The identifier of a variable: its file and its number in the file.
#[derive(Debug, Clone, Copy, PartialEq, Eq, Structural, PartialOrd, Ord, Hash)]
pub struct VariableId(pub usize, pub usize);

/// The phase of a renamed program: its variables carry a `VariableId`.
#[derive(Debug, Clone, Copy, PartialEq, Eq, Structural)]
pub struct PhaseRenamed();

/// A name of the logic language; names are equal when their texts are.
#[derive(Debug)]
pub struct Name(pub String);

impl PartialEq for Name {
    fn eq(&self, other: &Name) -> (r: bool) {
        text_eq(self.0.as_str(), other.0.as_str())
    }
}

impl PartialEqSpecImpl for Name {
    open spec fn obeys_eq_spec() -> bool {
        true
    }

    open spec fn eq_spec(&self, other: &Name) -> bool {
        self.0@ == other.0@
    }
}

/// A pattern of a `#match` branch: a variable, or a constructor with argument names.
#[derive(Debug)]
pub enum Pattern {
    Variable(String),
    Constructor(String, Vec<String>),
}

/// Terms of the logic language.
#[derive(Debug)]
pub enum LogicTerm {
    Variable(String),
    Apply { f: Box<LogicTerm>, args: Vec<LogicTerm> },
    ArrowDep { from: String, from_ty: Box<LogicTerm>, to: Box<LogicTerm> },
    ArrowNodep { from: Box<LogicTerm>, to: Box<LogicTerm> },
    Match { scrutinee: String, branches: Vec<LogicMatchBranch> },
    Paren(Box<LogicTerm>),
}

#[derive(Debug)]
pub struct LogicMatchBranch {
    pub pattern: Pattern,
    pub body: Box<LogicTerm>,
}

#[derive(Debug)]
pub struct LogicInductiveBranch {
    pub name: String,
    pub ty: Box<LogicTerm>,
}

/// Items of the logic language.
#[derive(Debug)]
pub enum LogicItem {
    Definition { name: String, type_: Box<LogicTerm>, body: Box<LogicTerm> },
    Inductive { name: String, ty: Box<LogicTerm>, branches: Vec<LogicInductiveBranch> },
    Theorem { name: String, type_: Box<LogicTerm>, body: Box<LogicTerm> },
}

#[derive(Debug)]
pub struct LogicFile {
    pub items: Vec<LogicItem>,
}

/// A renamed term: each variable with its identifier.
#[derive(Debug)]
pub enum RenamedTerm {
    Variable { variable: String, id: VariableId },
    Apply { f: Box<RenamedTerm>, args: Vec<RenamedTerm> },
    ArrowDep { from: String, from_id: VariableId, from_ty: Box<RenamedTerm>, to: Box<RenamedTerm> },
    ArrowNodep { from: Box<RenamedTerm>, to: Box<RenamedTerm> },
    Match { scrutinee: String, branches: Vec<RenamedMatchBranch> },
    Paren(Box<RenamedTerm>),
}

#[derive(Debug)]
pub struct RenamedMatchBranch {
    pub pattern: Pattern,
    pub body: Box<RenamedTerm>,
}

#[derive(Debug)]
pub struct RenamedInductiveBranch {
    pub name: String,
    pub ty: Box<RenamedTerm>,
}

#[derive(Debug)]
pub enum RenamedItem {
    Definition { name: String, type_: Box<RenamedTerm>, body: Box<RenamedTerm> },
    Inductive { name: String, ty: Box<RenamedTerm>, branches: Vec<RenamedInductiveBranch> },
    Theorem { name: String, type_: Box<RenamedTerm>, body: Box<RenamedTerm> },
}

#[derive(Debug)]
pub struct RenamedFile {
    pub items: Vec<RenamedItem>,
}

// The values of renamed programs.

pub enum SPattern {
    Variable(Seq<char>),
    Constructor(Seq<char>, Seq<Seq<char>>),
}

pub enum SRTerm {
    Variable(Seq<char>, VariableId),
    Apply(Box<SRTerm>, Seq<SRTerm>),
    ArrowDep(Seq<char>, VariableId, Box<SRTerm>, Box<SRTerm>),
    ArrowNodep(Box<SRTerm>, Box<SRTerm>),
    Match(Seq<char>, Seq<(SPattern, SRTerm)>),
    Paren(Box<SRTerm>),
}

pub enum SRItem {
    Definition(Seq<char>, SRTerm, SRTerm),
    Inductive(Seq<char>, SRTerm, Seq<(Seq<char>, SRTerm)>),
    Theorem(Seq<char>, SRTerm, SRTerm),
}

pub open spec fn pattern_view(p: Pattern) -> SPattern {
    match p {
        Pattern::Variable(v) => SPattern::Variable(v@),
        Pattern::Constructor(c, args) => SPattern::Constructor(c@, args@.map_values(|a: String| a@)),
    }
}

pub open spec fn rterm_view(t: RenamedTerm) -> SRTerm
    decreases t,
{
    match t {
        RenamedTerm::Variable { variable, id } => SRTerm::Variable(variable@, id),
        RenamedTerm::Apply { f, args } => SRTerm::Apply(Box::new(rterm_view(*f)), rterms_view(args@)),
        RenamedTerm::ArrowDep { from, from_id, from_ty, to } => SRTerm::ArrowDep(
            from@,
            from_id,
            Box::new(rterm_view(*from_ty)),
            Box::new(rterm_view(*to)),
        ),
        RenamedTerm::ArrowNodep { from, to } => SRTerm::ArrowNodep(
            Box::new(rterm_view(*from)),
            Box::new(rterm_view(*to)),
        ),
        RenamedTerm::Match { scrutinee, branches } => SRTerm::Match(scrutinee@, rbranches_view(branches@)),
        RenamedTerm::Paren(inner) => SRTerm::Paren(Box::new(rterm_view(*inner))),
    }
}

pub open spec fn rterms_view(s: Seq<RenamedTerm>) -> Seq<SRTerm>
    decreases s,
{
    if s.len() == 0 {
        Seq::empty()
    } else {
        rterms_view(s.drop_last()).push(rterm_view(s.last()))
    }
}

pub open spec fn rbranches_view(s: Seq<RenamedMatchBranch>) -> Seq<(SPattern, SRTerm)>
    decreases s,
{
    if s.len() == 0 {
        Seq::empty()
    } else {
        rbranches_view(s.drop_last()).push((pattern_view(s.last().pattern), rterm_view(*s.last().body)))
    }
}

pub open spec fn rind_view(s: Seq<RenamedInductiveBranch>) -> Seq<(Seq<char>, SRTerm)>
    decreases s,
{
    if s.len() == 0 {
        Seq::empty()
    } else {
        rind_view(s.drop_last()).push((s.last().name@, rterm_view(*s.last().ty)))
    }
}

pub open spec fn ritem_view(item: RenamedItem) -> SRItem {
    match item {
        RenamedItem::Definition { name, type_, body } => SRItem::Definition(name@, rterm_view(*type_), rterm_view(*body)),
        RenamedItem::Inductive { name, ty, branches } => SRItem::Inductive(name@, rterm_view(*ty), rind_view(branches@)),
        RenamedItem::Theorem { name, type_, body } => SRItem::Theorem(name@, rterm_view(*type_), rterm_view(*body)),
    }
}

/// The state of renaming: the next variable number and the scopes of bindings.
pub struct RState {
    pub file: usize,
    pub next: nat,
    pub stack: Seq<Seq<(Name, VariableId)>>,
}

pub open spec fn enter(s: RState) -> RState {
    RState { file: s.file, next: s.next, stack: s.stack.push(Seq::empty()) }
}

pub open spec fn leave(s: RState) -> RState {
    RState { file: s.file, next: s.next, stack: s.stack.drop_last() }
}

/// A fresh identifier taken.
pub open spec fn fresh(s: RState) -> RState {
    RState { file: s.file, next: s.next + 1, stack: s.stack }
}

/// A fresh identifier, bound to `name` in the innermost scope.
pub open spec fn bind(s: RState, name: String) -> RState {
    RState {
        file: s.file,
        next: s.next + 1,
        stack: if s.stack.len() == 0 {
            s.stack
        } else {
            s.stack.drop_last().push(s.stack.last().push((Name(name), VariableId(s.file, s.next as usize))))
        },
    }
}

/// The identifier of `name` where it is used: its binding, or a fresh one.
pub open spec fn use_id(s: RState, name: String) -> (RState, VariableId) {
    match innermost(s.stack, Name(name)) {
        Some(id) => (s, id),
        None => (fresh(s), VariableId(s.file, s.next as usize)),
    }
}

/// The names a pattern binds, bound in order.
pub open spec fn bind_pattern(s: RState, p: Pattern) -> RState {
    match p {
        Pattern::Variable(v) => bind(s, v),
        Pattern::Constructor(_, args) => bind_all(s, args@, 0),
    }
}

pub open spec fn bind_all(s: RState, names: Seq<String>, i: int) -> RState
    decreases names.len() - i,
{
    if i < 0 || i >= names.len() {
        s
    } else {
        bind_all(bind(s, names[i]), names, i + 1)
    }
}

/// A term renamed.
pub open spec fn rn_term(s: RState, t: LogicTerm) -> (RState, SRTerm)
    decreases t, 0int,
{
    match t {
        LogicTerm::Variable(v) => {
            let u = use_id(s, v);
            (u.0, SRTerm::Variable(v@, u.1))
        },
        LogicTerm::Apply { f, args } => {
            let rf = rn_term(s, *f);
            let ra = rn_args(rf.0, args@, 0);
            (ra.0, SRTerm::Apply(Box::new(rf.1), ra.1))
        },
        LogicTerm::ArrowDep { from, from_ty, to } => {
            let s1 = bind(enter(s), from);
            let id = use_id(s1, from).1;
            let rty = rn_term(s1, *from_ty);
            let rto = rn_term(rty.0, *to);
            (leave(rto.0), SRTerm::ArrowDep(from@, id, Box::new(rty.1), Box::new(rto.1)))
        },
        LogicTerm::ArrowNodep { from, to } => {
            let rfrom = rn_term(s, *from);
            let rto = rn_term(rfrom.0, *to);
            (rto.0, SRTerm::ArrowNodep(Box::new(rfrom.1), Box::new(rto.1)))
        },
        LogicTerm::Match { scrutinee, branches } => {
            let rb = rn_branches(s, branches@, 0);
            (rb.0, SRTerm::Match(scrutinee@, rb.1))
        },
        LogicTerm::Paren(inner) => {
            let r = rn_term(s, *inner);
            (r.0, SRTerm::Paren(Box::new(r.1)))
        },
    }
}

/// The arguments `args[i..]` of an application, renamed in order.
pub open spec fn rn_args(s: RState, args: Seq<LogicTerm>, i: int) -> (RState, Seq<SRTerm>)
    decreases args, args.len() - i,
{
    if i < 0 || i >= args.len() {
        (s, Seq::empty())
    } else {
        let r = rn_term(s, args[i]);
        let rest = rn_args(r.0, args, i + 1);
        (rest.0, seq![r.1] + rest.1)
    }
}

/// A match branch: its pattern's names bound in a scope of their own, then its body.
pub open spec fn rn_branch(s: RState, b: LogicMatchBranch) -> (RState, SRTerm)
    decreases b, 0int,
{
    let r = rn_term(bind_pattern(enter(s), b.pattern), *b.body);
    (leave(r.0), r.1)
}

/// The branches `branches[i..]` of a match, renamed in order.
pub open spec fn rn_branches(s: RState, branches: Seq<LogicMatchBranch>, i: int) -> (RState, Seq<(SPattern, SRTerm)>)
    decreases branches, branches.len() - i,
{
    if i < 0 || i >= branches.len() {
        (s, Seq::empty())
    } else {
        let r = rn_branch(s, branches[i]);
        let rest = rn_branches(r.0, branches, i + 1);
        (rest.0, seq![(pattern_view(branches[i].pattern), r.1)] + rest.1)
    }
}

/// An inductive type's constructor: its name bound in a scope of its own, then its type.
pub open spec fn rn_ind_branch(s: RState, b: LogicInductiveBranch) -> (RState, SRTerm) {
    let r = rn_term(bind(enter(s), b.name), *b.ty);
    (leave(r.0), r.1)
}

pub open spec fn rn_ind_branches(s: RState, bs: Seq<LogicInductiveBranch>, i: int) -> (RState, Seq<(Seq<char>, SRTerm)>)
    decreases bs.len() - i,
{
    if i < 0 || i >= bs.len() {
        (s, Seq::empty())
    } else {
        let r = rn_ind_branch(s, bs[i]);
        let rest = rn_ind_branches(r.0, bs, i + 1);
        (rest.0, seq![(bs[i].name@, r.1)] + rest.1)
    }
}

/// An item: its name bound in a scope of its own, then its parts.
pub open spec fn rn_item(s: RState, item: LogicItem) -> (RState, SRItem) {
    match item {
        LogicItem::Definition { name, type_, body } => {
            let rt = rn_term(bind(enter(s), name), *type_);
            let rb = rn_term(rt.0, *body);
            (leave(rb.0), SRItem::Definition(name@, rt.1, rb.1))
        },
        LogicItem::Inductive { name, ty, branches } => {
            let rt = rn_term(bind(enter(s), name), *ty);
            let rb = rn_ind_branches(rt.0, branches@, 0);
            (leave(rb.0), SRItem::Inductive(name@, rt.1, rb.1))
        },
        LogicItem::Theorem { name, type_, body } => {
            let rt = rn_term(bind(enter(s), name), *type_);
            let rb = rn_term(rt.0, *body);
            (leave(rb.0), SRItem::Theorem(name@, rt.1, rb.1))
        },
    }
}

pub open spec fn rn_items(s: RState, items: Seq<LogicItem>, i: int) -> (RState, Seq<SRItem>)
    decreases items.len() - i,
{
    if i < 0 || i >= items.len() {
        (s, Seq::empty())
    } else {
        let r = rn_item(s, items[i]);
        let rest = rn_items(r.0, items, i + 1);
        (rest.0, seq![r.1] + rest.1)
    }
}

// How many identifiers renaming can take: one for each variable and each binder.

pub open spec fn pattern_ids(p: Pattern) -> nat {
    match p {
        Pattern::Variable(_) => 1,
        Pattern::Constructor(_, args) => args@.len(),
    }
}

pub open spec fn term_ids(t: LogicTerm) -> nat
    decreases t, 0int,
{
    match t {
        LogicTerm::Variable(_) => 1,
        LogicTerm::Apply { f, args } => term_ids(*f) + args_ids(args@, 0),
        LogicTerm::ArrowDep { from, from_ty, to } => 1 + term_ids(*from_ty) + term_ids(*to),
        LogicTerm::ArrowNodep { from, to } => term_ids(*from) + term_ids(*to),
        LogicTerm::Match { scrutinee, branches } => branches_ids(branches@, 0),
        LogicTerm::Paren(inner) => term_ids(*inner),
    }
}

pub open spec fn args_ids(args: Seq<LogicTerm>, i: int) -> nat
    decreases args, args.len() - i,
{
    if i < 0 || i >= args.len() {
        0
    } else {
        term_ids(args[i]) + args_ids(args, i + 1)
    }
}

pub open spec fn branch_ids(b: LogicMatchBranch) -> nat
    decreases b, 0int,
{
    pattern_ids(b.pattern) + term_ids(*b.body)
}

pub open spec fn branches_ids(bs: Seq<LogicMatchBranch>, i: int) -> nat
    decreases bs, bs.len() - i,
{
    if i < 0 || i >= bs.len() {
        0
    } else {
        branch_ids(bs[i]) + branches_ids(bs, i + 1)
    }
}

pub open spec fn ind_ids(bs: Seq<LogicInductiveBranch>, i: int) -> nat
    decreases bs.len() - i,
{
    if i < 0 || i >= bs.len() {
        0
    } else {
        1 + term_ids(*bs[i].ty) + ind_ids(bs, i + 1)
    }
}

pub open spec fn item_ids(item: LogicItem) -> nat {
    match item {
        LogicItem::Definition { name, type_, body } => 1 + term_ids(*type_) + term_ids(*body),
        LogicItem::Inductive { name, ty, branches } => 1 + term_ids(*ty) + ind_ids(branches@, 0),
        LogicItem::Theorem { name, type_, body } => 1 + term_ids(*type_) + term_ids(*body),
    }
}

pub open spec fn items_ids(items: Seq<LogicItem>, i: int) -> nat
    decreases items.len() - i,
{
    if i < 0 || i >= items.len() {
        0
    } else {
        item_ids(items[i]) + items_ids(items, i + 1)
    }
}

pub open spec fn ritems_view(s: Seq<RenamedItem>) -> Seq<SRItem> {
    s.map_values(|i: RenamedItem| ritem_view(i))
}

proof fn lemma_rterms_push(s: Seq<RenamedTerm>, t: RenamedTerm)
    ensures
        rterms_view(s.push(t)) == rterms_view(s).push(rterm_view(t)),
{
    assert(s.push(t).drop_last() =~= s);
}

proof fn lemma_rbranches_push(s: Seq<RenamedMatchBranch>, b: RenamedMatchBranch)
    ensures
        rbranches_view(s.push(b)) == rbranches_view(s).push((pattern_view(b.pattern), rterm_view(*b.body))),
{
    assert(s.push(b).drop_last() =~= s);
}

proof fn lemma_rind_push(s: Seq<RenamedInductiveBranch>, b: RenamedInductiveBranch)
    ensures
        rind_view(s.push(b)) == rind_view(s).push((b.name@, rterm_view(*b.ty))),
{
    assert(s.push(b).drop_last() =~= s);
}

/// A name just bound in the innermost scope is found there.
proof fn lemma_bound_name_found(scopes: Seq<Seq<(Name, VariableId)>>, name: String, id: VariableId)
    requires
        scopes.len() > 0,
    ensures
        innermost(scopes.drop_last().push(scopes.last().push((Name(name), id))), Name(name)) == Some(id),
{
    let s2 = scopes.drop_last().push(scopes.last().push((Name(name), id)));
    assert(s2.last() == scopes.last().push((Name(name), id)));
    assert(PartialEqSpec::eq_spec(&s2.last().last().0, &Name(name)));
}


proof fn lemma_bind_all_frame(s: RState, names: Seq<String>, i: int)
    requires
        s.stack.len() > 0,
        0 <= i <= names.len(),
    ensures
        bind_all(s, names, i).stack.len() == s.stack.len(),
        bind_all(s, names, i).stack.drop_last() == s.stack.drop_last(),
        bind_all(s, names, i).file == s.file,
        bind_all(s, names, i).next == s.next + (names.len() - i),
    decreases names.len() - i,
{
    if i < names.len() {
        let s1 = bind(s, names[i]);
        assert(s1.stack.drop_last() =~= s.stack.drop_last());
        lemma_bind_all_frame(s1, names, i + 1);
    }
}

proof fn lemma_bind_pattern_frame(s: RState, p: Pattern)
    requires
        s.stack.len() > 0,
    ensures
        bind_pattern(s, p).stack.len() == s.stack.len(),
        bind_pattern(s, p).stack.drop_last() == s.stack.drop_last(),
        bind_pattern(s, p).file == s.file,
        bind_pattern(s, p).next == s.next + pattern_ids(p),
{
    match p {
        Pattern::Variable(v) => {
            assert(bind(s, v).stack.drop_last() =~= s.stack.drop_last());
        },
        Pattern::Constructor(_, args) => {
            lemma_bind_all_frame(s, args@, 0);
        },
    }
}

/// Renaming a term leaves the scopes as they were and the file alone, and takes at most
/// `term_ids` identifiers.
pub proof fn lemma_rn_term_frame(s: RState, t: LogicTerm)
    ensures
        rn_term(s, t).0.stack == s.stack,
        rn_term(s, t).0.file == s.file,
        s.next <= rn_term(s, t).0.next <= s.next + term_ids(t),
    decreases t, 0int,
{
    match t {
        LogicTerm::Variable(v) => {},
        LogicTerm::Apply { f, args } => {
            lemma_rn_term_frame(s, *f);
            lemma_rn_args_frame(rn_term(s, *f).0, args@, 0);
        },
        LogicTerm::ArrowDep { from, from_ty, to } => {
            let s1 = bind(enter(s), from);
            assert(s1.stack.drop_last() =~= s.stack);
            lemma_rn_term_frame(s1, *from_ty);
            lemma_rn_term_frame(rn_term(s1, *from_ty).0, *to);
        },
        LogicTerm::ArrowNodep { from, to } => {
            lemma_rn_term_frame(s, *from);
            lemma_rn_term_frame(rn_term(s, *from).0, *to);
        },
        LogicTerm::Match { scrutinee, branches } => {
            lemma_rn_branches_frame(s, branches@, 0);
        },
        LogicTerm::Paren(inner) => {
            lemma_rn_term_frame(s, *inner);
        },
    }
}

proof fn lemma_rn_args_frame(s: RState, args: Seq<LogicTerm>, i: int)
    ensures
        rn_args(s, args, i).0.stack == s.stack,
        rn_args(s, args, i).0.file == s.file,
        s.next <= rn_args(s, args, i).0.next <= s.next + args_ids(args, i),
    decreases args, args.len() - i,
{
    if 0 <= i < args.len() {
        lemma_rn_term_frame(s, args[i]);
        lemma_rn_args_frame(rn_term(s, args[i]).0, args, i + 1);
    }
}

proof fn lemma_rn_branch_frame(s: RState, b: LogicMatchBranch)
    ensures
        rn_branch(s, b).0.stack == s.stack,
        rn_branch(s, b).0.file == s.file,
        s.next <= rn_branch(s, b).0.next <= s.next + branch_ids(b),
    decreases b, 0int,
{
    let s1 = bind_pattern(enter(s), b.pattern);
    lemma_bind_pattern_frame(enter(s), b.pattern);
    assert(enter(s).stack.drop_last() =~= s.stack);
    lemma_rn_term_frame(s1, *b.body);
}

proof fn lemma_rn_branches_frame(s: RState, bs: Seq<LogicMatchBranch>, i: int)
    ensures
        rn_branches(s, bs, i).0.stack == s.stack,
        rn_branches(s, bs, i).0.file == s.file,
        s.next <= rn_branches(s, bs, i).0.next <= s.next + branches_ids(bs, i),
    decreases bs, bs.len() - i,
{
    if 0 <= i < bs.len() {
        lemma_rn_branch_frame(s, bs[i]);
        lemma_rn_branches_frame(rn_branch(s, bs[i]).0, bs, i + 1);
    }
}

/// The identifier a dependent arrow gives its binder.
pub open spec fn binder_id(t: SRTerm) -> Option<VariableId> {
    match t {
        SRTerm::ArrowDep(_, id, _, _) => Some(id),
        _ => None,
    }
}

/// The result side of a dependent arrow.
pub open spec fn arrow_result(t: SRTerm) -> Option<SRTerm> {
    match t {
        SRTerm::ArrowDep(_, _, _, to) => Some(*to),
        _ => None,
    }
}

/// Shadowing: in `(x : a) -> (x : b) -> x`, the outer binder takes the next identifier,
/// the inner binder a different one, and the `x` of the body refers to the inner binder.
pub proof fn lemma_inner_binding_shadows(s: RState, x: String, a: LogicTerm, b: LogicTerm)
    requires
        s.next + 1 + term_ids(a) <= usize::MAX,
    ensures
        binder_id(rn_term(s, LogicTerm::ArrowDep {
            from: x,
            from_ty: Box::new(a),
            to: Box::new(LogicTerm::ArrowDep { from: x, from_ty: Box::new(b), to: Box::new(LogicTerm::Variable(x)) }),
        }).1) == Some(VariableId(s.file, s.next as usize)),
        ({
            let r = rn_term(s, LogicTerm::ArrowDep {
                from: x,
                from_ty: Box::new(a),
                to: Box::new(LogicTerm::ArrowDep { from: x, from_ty: Box::new(b), to: Box::new(LogicTerm::Variable(x)) }),
            }).1;
            let inner = arrow_result(r).unwrap();
            &&& binder_id(inner) is Some
            &&& binder_id(inner) != binder_id(r)
            &&& arrow_result(inner) == Some(SRTerm::Variable(x@, binder_id(inner).unwrap()))
        }),
{
    let outer = enter(s);
    let s1 = bind(outer, x);
    lemma_bound_name_found(outer.stack, x, VariableId(s.file, s.next as usize));
    lemma_rn_term_frame(s1, a);
    let s2 = rn_term(s1, a).0;
    let inner = enter(s2);
    let s3 = bind(inner, x);
    lemma_bound_name_found(inner.stack, x, VariableId(s2.file, s2.next as usize));
    lemma_rn_term_frame(s3, b);
    let s4 = rn_term(s3, b).0;
    let id2 = VariableId(s2.file, s2.next as usize);
    assert(innermost(s4.stack, Name(x)) == Some(id2));
    assert(rn_term(s4, LogicTerm::Variable(x)).1 == SRTerm::Variable(x@, id2));
    let t_inner = LogicTerm::ArrowDep { from: x, from_ty: Box::new(b), to: Box::new(LogicTerm::Variable(x)) };
    assert(use_id(s3, x).1 == id2);
    assert(rn_term(s2, t_inner).1 == SRTerm::ArrowDep(
        x@,
        id2,
        Box::new(rn_term(s3, b).1),
        Box::new(SRTerm::Variable(x@, id2)),
    ));
    assert(s2.next as usize != s.next as usize);
}

/// A variable pattern binds its name for the branch body: in a branch `y => y`, the `y` of
/// the body is renamed to the identifier that the pattern takes, the next one.
pub proof fn lemma_variable_pattern_binds(s: RState, y: String)
    ensures
        rn_branch(s, LogicMatchBranch { pattern: Pattern::Variable(y), body: Box::new(LogicTerm::Variable(y)) }).1
            == SRTerm::Variable(y@, VariableId(s.file, s.next as usize)),
{
    let id = VariableId(s.file, s.next as usize);
    lemma_bound_name_found(enter(s).stack, y, id);
    let s1 = bind(enter(s), y);
    assert(bind_pattern(enter(s), Pattern::Variable(y)) == s1);
    assert(use_id(s1, y).1 == id);
}

proof fn lemma_bind_all_shape(s: RState, names: Seq<String>, i: int)
    requires
        s.stack.len() > 0,
        0 <= i <= names.len(),
    ensures
        bind_all(s, names, i).file == s.file,
        bind_all(s, names, i).next == s.next + (names.len() - i),
        bind_all(s, names, i).stack == s.stack.drop_last().push(
            s.stack.last() + Seq::new(
                (names.len() - i) as nat,
                |j: int| (Name(names[i + j]), VariableId(s.file, (s.next + j) as usize)),
            ),
        ),
    decreases names.len() - i,
{
    if i == names.len() {
        assert(s.stack.last() + Seq::new(0nat, |j: int| (Name(names[i + j]), VariableId(s.file, (s.next + j) as usize)))
            =~= s.stack.last());
        assert(s.stack.drop_last().push(s.stack.last()) =~= s.stack);
    } else {
        let s1 = bind(s, names[i]);
        lemma_bind_all_shape(s1, names, i + 1);
        assert(s1.stack.drop_last() =~= s.stack.drop_last());
        let tail = Seq::new(
            (names.len() - i - 1) as nat,
            |j: int| (Name(names[i + 1 + j]), VariableId(s.file, (s.next + 1 + j) as usize)),
        );
        let whole = Seq::new(
            (names.len() - i) as nat,
            |j: int| (Name(names[i + j]), VariableId(s.file, (s.next + j) as usize)),
        );
        assert(s1.stack.last() + tail =~= s.stack.last() + whole);
    }
}

proof fn lemma_latest_unique(binds: Seq<(Name, VariableId)>, key: Name, k: int)
    requires
        0 <= k < binds.len(),
        binds[k].0.0@ == key.0@,
        forall|j: int| 0 <= j < binds.len() && j != k ==> binds[j].0.0@ != key.0@,
    ensures
        innermost(seq![binds], key) == Some(binds[k].1),
        crate::scope::latest(binds, key) == Some(binds[k].1),
    decreases binds.len(),
{
    let n = binds.len() - 1;
    assert(binds.last() == binds[n]);
    if k < n {
        assert(binds[n].0.0@ != key.0@);
        assert(!PartialEqSpec::eq_spec(&binds.last().0, &key));
        lemma_latest_unique(binds.drop_last(), key, k);
        assert(binds.drop_last()[k] == binds[k]);
    } else {
        assert(PartialEqSpec::eq_spec(&binds.last().0, &key));
    }
    assert(seq![binds].last() == binds);
    assert(seq![binds].drop_last() =~= Seq::<Seq<(Name, VariableId)>>::empty());
}

/// A constructor pattern binds its names in order: with distinct names, the `k`-th name
/// used in the branch body is renamed to the `k`-th identifier that the pattern takes.
pub proof fn lemma_constructor_pattern_binds(s: RState, c: String, args: Vec<String>, k: int)
    requires
        0 <= k < args@.len(),
        forall|i: int, j: int| 0 <= i < j < args@.len() ==> args@[i]@ != args@[j]@,
    ensures
        rn_branch(s, LogicMatchBranch { pattern: Pattern::Constructor(c, args), body: Box::new(LogicTerm::Variable(args@[k])) }).1
            == SRTerm::Variable(args@[k]@, VariableId(s.file, (s.next + k) as usize)),
{
    let names = args@;
    let e = enter(s);
    lemma_bind_all_shape(e, names, 0);
    let s1 = bind_all(e, names, 0);
    let scope = Seq::new(names.len(), |j: int| (Name(names[0 + j]), VariableId(e.file, (e.next + j) as usize)));
    assert(e.stack.last() =~= Seq::<(Name, VariableId)>::empty());
    assert(Seq::<(Name, VariableId)>::empty() + scope =~= scope);
    assert(s1.stack == s.stack.push(scope)) by {
        assert(e.stack.drop_last() =~= s.stack);
    }
    let key = Name(names[k]);
    lemma_latest_unique(scope, key, k);
    assert(s1.stack.last() == scope);
    assert(s1.stack.drop_last() =~= s.stack);
    assert(innermost(s1.stack, key) == Some(VariableId(s.file, (s.next + k) as usize)));
    assert(bind_pattern(e, Pattern::Constructor(c, args)) == s1);
    assert(use_id(s1, names[k]).1 == VariableId(s.file, (s.next + k) as usize));
}

/// The renaming state: the file, the next variable number, and the scopes of bindings.
struct RenameContext {
    file_id: usize,
    next_variable_id: usize,
    scope: ScopeStack<Name, VariableId>,
}

impl RenameContext {
    spec fn state(&self) -> RState {
        RState { file: self.file_id, next: self.next_variable_id as nat, stack: self.scope.stack() }
    }

    fn new(file_id: usize) -> (c: RenameContext)
        ensures
            c.state() == (RState { file: file_id, next: 0, stack: Seq::empty() }),
    {
        RenameContext { file_id, next_variable_id: 0, scope: ScopeStack::new() }
    }

    fn generate_variable_id(&mut self) -> (id: VariableId)
        requires
            old(self).next_variable_id < usize::MAX,
        ensures
            id == VariableId(old(self).file_id, old(self).next_variable_id),
            final(self).state() == fresh(old(self).state()),
    {
        let id = VariableId(self.file_id, self.next_variable_id);
        self.next_variable_id = self.next_variable_id + 1;
        id
    }

    fn bind_variable(&mut self, name: &String) -> (id: VariableId)
        requires
            old(self).next_variable_id < usize::MAX,
        ensures
            final(self).state() == bind(old(self).state(), *name),
            id == VariableId(old(self).file_id, old(self).next_variable_id),
    {
        let id = self.generate_variable_id();
        self.scope.set(Name(name.clone()), id);
        id
    }

    fn lookup_variable(&self, name: &String) -> (r: Option<VariableId>)
        ensures
            r == innermost(self.state().stack, Name(*name)),
    {
        let key = Name(name.clone());
        match self.scope.get(&key) {
            Some(id) => Some(*id),
            None => None,
        }
    }

    fn enter_scope(&mut self)
        ensures
            final(self).state() == enter(old(self).state()),
    {
        self.scope.enter_scope();
    }

    fn leave_scope(&mut self)
        requires
            old(self).state().stack.len() > 0,
        ensures
            final(self).state() == leave(old(self).state()),
    {
        let _scope = self.scope.leave_scope();
    }
}

fn clone_pattern(p: &Pattern) -> (r: Pattern)
    ensures
        pattern_view(r) == pattern_view(*p),
{
    match p {
        Pattern::Variable(v) => Pattern::Variable(v.clone()),
        Pattern::Constructor(c, args) => {
            let mut out: Vec<String> = Vec::new();
            let mut i: usize = 0;
            while i < args.len()
                invariant
                    i <= args@.len(),
                    out@.len() == i,
                    forall|j: int| 0 <= j < i ==> #[trigger] out@[j]@ == args@[j]@,
                decreases args@.len() - i,
            {
                out.push(args[i].clone());
                i = i + 1;
            }
            let r = Pattern::Constructor(c.clone(), out);
            assert(out@.map_values(|a: String| a@) =~= args@.map_values(|a: String| a@));
            r
        },
    }
}

/// Binds the names of a pattern, in order.
fn rename_pattern_bindings(context: &mut RenameContext, pattern: &Pattern)
    requires
        old(context).next_variable_id + pattern_ids(*pattern) <= usize::MAX,
    ensures
        final(context).state() == bind_pattern(old(context).state(), *pattern),
        final(context).next_variable_id <= old(context).next_variable_id + pattern_ids(*pattern),
        final(context).state().stack.len() == old(context).state().stack.len(),
{
    match pattern {
        Pattern::Variable(var) => {
            context.bind_variable(var);
        },
        Pattern::Constructor(_, args) => {
            let ghost target = bind_all(context.state(), args@, 0);
            let mut i: usize = 0;
            while i < args.len()
                invariant
                    i <= args@.len(),
                    bind_all(context.state(), args@, i as int) == target,
                    context.next_variable_id == old(context).next_variable_id + i,
                    old(context).next_variable_id + args@.len() <= usize::MAX,
                    context.state().stack.len() == old(context).state().stack.len(),
                decreases args@.len() - i,
            {
                context.bind_variable(&args[i]);
                i = i + 1;
            }
        },
    }
}

/// A term renamed: variables get the identifier of their binding, or a fresh one.
fn rename_term(context: &mut RenameContext, term: &LogicTerm) -> (r: RenamedTerm)
    requires
        old(context).next_variable_id + term_ids(*term) <= usize::MAX,
    ensures
        (final(context).state(), rterm_view(r)) == rn_term(old(context).state(), *term),
        final(context).next_variable_id <= old(context).next_variable_id + term_ids(*term),
        final(context).state().stack.len() == old(context).state().stack.len(),
    decreases term, 0int,
{
    match term {
        LogicTerm::Variable(variable) => {
            let id = match context.lookup_variable(variable) {
                Some(id) => id,
                None => context.generate_variable_id(),
            };
            RenamedTerm::Variable { variable: variable.clone(), id }
        },
        LogicTerm::Apply { f, args } => {
            let rf = rename_term(context, f);
            let ra = rename_args(context, args);
            RenamedTerm::Apply { f: Box::new(rf), args: ra }
        },
        LogicTerm::ArrowDep { from, from_ty, to } => {
            context.enter_scope();
            context.bind_variable(from);
            let from_id = match context.lookup_variable(from) {
                Some(id) => id,
                None => context.generate_variable_id(),
            };
            proof {
                lemma_bound_name_found(
                    enter(old(context).state()).stack,
                    *from,
                    VariableId(old(context).file_id, old(context).next_variable_id),
                );
            }
            let rty = rename_term(context, from_ty);
            let rto = rename_term(context, to);
            context.leave_scope();
            RenamedTerm::ArrowDep { from: from.clone(), from_id, from_ty: Box::new(rty), to: Box::new(rto) }
        },
        LogicTerm::ArrowNodep { from, to } => {
            let rfrom = rename_term(context, from);
            let rto = rename_term(context, to);
            RenamedTerm::ArrowNodep { from: Box::new(rfrom), to: Box::new(rto) }
        },
        LogicTerm::Match { scrutinee, branches } => {
            let rb = rename_match_branches(context, branches);
            RenamedTerm::Match { scrutinee: scrutinee.clone(), branches: rb }
        },
        LogicTerm::Paren(inner) => {
            let r = rename_term(context, inner);
            RenamedTerm::Paren(Box::new(r))
        },
    }
}

fn rename_args(context: &mut RenameContext, args: &Vec<LogicTerm>) -> (r: Vec<RenamedTerm>)
    requires
        old(context).next_variable_id + args_ids(args@, 0) <= usize::MAX,
    ensures
        (final(context).state(), rterms_view(r@)) == rn_args(old(context).state(), args@, 0),
        final(context).next_variable_id <= old(context).next_variable_id + args_ids(args@, 0),
        final(context).state().stack.len() == old(context).state().stack.len(),
    decreases args@, 1int,
{
    let ghost target = rn_args(context.state(), args@, 0);
    let mut out: Vec<RenamedTerm> = Vec::new();
    let mut i: usize = 0;
    while i < args.len()
        invariant
            i <= args@.len(),
            rn_args(context.state(), args@, i as int).0 == target.0,
            rterms_view(out@) + rn_args(context.state(), args@, i as int).1 == target.1,
            context.next_variable_id + args_ids(args@, i as int) <= old(context).next_variable_id + args_ids(args@, 0),
            old(context).next_variable_id + args_ids(args@, 0) <= usize::MAX,
            context.state().stack.len() == old(context).state().stack.len(),
        decreases args@.len() - i,
    {
        let ghost before = context.state();
        let ghost rest_before = rn_args(before, args@, i as int);
        let t = rename_term(context, &args[i]);
        proof {
            lemma_rterms_push(out@, t);
            let r = rn_term(before, args@[i as int]);
            assert(rest_before.1 == seq![r.1] + rn_args(r.0, args@, i + 1).1);
            assert(rterms_view(out@).push(rterm_view(t)) + rn_args(context.state(), args@, i + 1).1 =~= rterms_view(out@)
                + rest_before.1);
        }
        out.push(t);
        i = i + 1;
    }
    assert(rterms_view(out@) + Seq::<SRTerm>::empty() =~= rterms_view(out@));
    out
}

fn rename_match_branch(context: &mut RenameContext, branch: &LogicMatchBranch) -> (r: RenamedMatchBranch)
    requires
        old(context).next_variable_id + branch_ids(*branch) <= usize::MAX,
    ensures
        final(context).state() == rn_branch(old(context).state(), *branch).0,
        pattern_view(r.pattern) == pattern_view(branch.pattern),
        rterm_view(*r.body) == rn_branch(old(context).state(), *branch).1,
        final(context).next_variable_id <= old(context).next_variable_id + branch_ids(*branch),
        final(context).state().stack.len() == old(context).state().stack.len(),
    decreases branch, 1int,
{
    context.enter_scope();
    rename_pattern_bindings(context, &branch.pattern);
    let body = rename_term(context, &branch.body);
    context.leave_scope();
    RenamedMatchBranch { pattern: clone_pattern(&branch.pattern), body: Box::new(body) }
}

fn rename_match_branches(context: &mut RenameContext, branches: &Vec<LogicMatchBranch>) -> (r: Vec<RenamedMatchBranch>)
    requires
        old(context).next_variable_id + branches_ids(branches@, 0) <= usize::MAX,
    ensures
        (final(context).state(), rbranches_view(r@)) == rn_branches(old(context).state(), branches@, 0),
        final(context).next_variable_id <= old(context).next_variable_id + branches_ids(branches@, 0),
        final(context).state().stack.len() == old(context).state().stack.len(),
    decreases branches@, 2int,
{
    let ghost target = rn_branches(context.state(), branches@, 0);
    let mut out: Vec<RenamedMatchBranch> = Vec::new();
    let mut i: usize = 0;
    while i < branches.len()
        invariant
            i <= branches@.len(),
            rn_branches(context.state(), branches@, i as int).0 == target.0,
            rbranches_view(out@) + rn_branches(context.state(), branches@, i as int).1 == target.1,
            context.next_variable_id + branches_ids(branches@, i as int) <= old(context).next_variable_id
                + branches_ids(branches@, 0),
            old(context).next_variable_id + branches_ids(branches@, 0) <= usize::MAX,
            context.state().stack.len() == old(context).state().stack.len(),
        decreases branches@.len() - i,
    {
        let ghost before = context.state();
        let ghost rest_before = rn_branches(before, branches@, i as int);
        let b = rename_match_branch(context, &branches[i]);
        proof {
            lemma_rbranches_push(out@, b);
            let r = rn_branch(before, branches@[i as int]);
            assert(rest_before.1 == seq![(pattern_view(branches@[i as int].pattern), r.1)] + rn_branches(r.0, branches@, i + 1).1);
            assert(rbranches_view(out@).push((pattern_view(b.pattern), rterm_view(*b.body))) + rn_branches(
                context.state(),
                branches@,
                i + 1,
            ).1 =~= rbranches_view(out@) + rest_before.1);
        }
        out.push(b);
        i = i + 1;
    }
    assert(rbranches_view(out@) + Seq::<(SPattern, SRTerm)>::empty() =~= rbranches_view(out@));
    out
}


fn rename_inductive_branch(context: &mut RenameContext, branch: &LogicInductiveBranch) -> (r: RenamedInductiveBranch)
    requires
        old(context).next_variable_id + 1 + term_ids(*branch.ty) <= usize::MAX,
    ensures
        final(context).state() == rn_ind_branch(old(context).state(), *branch).0,
        r.name@ == branch.name@,
        rterm_view(*r.ty) == rn_ind_branch(old(context).state(), *branch).1,
        final(context).next_variable_id <= old(context).next_variable_id + 1 + term_ids(*branch.ty),
        final(context).state().stack.len() == old(context).state().stack.len(),
{
    context.enter_scope();
    context.bind_variable(&branch.name);
    let ty = rename_term(context, &branch.ty);
    context.leave_scope();
    RenamedInductiveBranch { name: branch.name.clone(), ty: Box::new(ty) }
}

fn rename_inductive_branches(context: &mut RenameContext, branches: &Vec<LogicInductiveBranch>) -> (r: Vec<
    RenamedInductiveBranch,
>)
    requires
        old(context).next_variable_id + ind_ids(branches@, 0) <= usize::MAX,
    ensures
        (final(context).state(), rind_view(r@)) == rn_ind_branches(old(context).state(), branches@, 0),
        final(context).next_variable_id <= old(context).next_variable_id + ind_ids(branches@, 0),
        final(context).state().stack.len() == old(context).state().stack.len(),
{
    let ghost target = rn_ind_branches(context.state(), branches@, 0);
    let mut out: Vec<RenamedInductiveBranch> = Vec::new();
    let mut i: usize = 0;
    while i < branches.len()
        invariant
            i <= branches@.len(),
            rn_ind_branches(context.state(), branches@, i as int).0 == target.0,
            rind_view(out@) + rn_ind_branches(context.state(), branches@, i as int).1 == target.1,
            context.next_variable_id + ind_ids(branches@, i as int) <= old(context).next_variable_id + ind_ids(
                branches@,
                0,
            ),
            old(context).next_variable_id + ind_ids(branches@, 0) <= usize::MAX,
            context.state().stack.len() == old(context).state().stack.len(),
        decreases branches@.len() - i,
    {
        let ghost before = context.state();
        let ghost rest_before = rn_ind_branches(before, branches@, i as int);
        let b = rename_inductive_branch(context, &branches[i]);
        proof {
            lemma_rind_push(out@, b);
            let r = rn_ind_branch(before, branches@[i as int]);
            assert(rest_before.1 == seq![(branches@[i as int].name@, r.1)] + rn_ind_branches(r.0, branches@, i + 1).1);
            assert(rind_view(out@).push((b.name@, rterm_view(*b.ty))) + rn_ind_branches(context.state(), branches@, i + 1).1
                =~= rind_view(out@) + rest_before.1);
        }
        out.push(b);
        i = i + 1;
    }
    assert(rind_view(out@) + Seq::<(Seq<char>, SRTerm)>::empty() =~= rind_view(out@));
    out
}

fn rename_item(context: &mut RenameContext, item: &LogicItem) -> (r: RenamedItem)
    requires
        old(context).next_variable_id + item_ids(*item) <= usize::MAX,
    ensures
        (final(context).state(), ritem_view(r)) == rn_item(old(context).state(), *item),
        final(context).next_variable_id <= old(context).next_variable_id + item_ids(*item),
        final(context).state().stack.len() == old(context).state().stack.len(),
{
    match item {
        LogicItem::Definition { name, type_, body } => {
            context.enter_scope();
            context.bind_variable(name);
            let t = rename_term(context, type_);
            let b = rename_term(context, body);
            context.leave_scope();
            RenamedItem::Definition { name: name.clone(), type_: Box::new(t), body: Box::new(b) }
        },
        LogicItem::Inductive { name, ty, branches } => {
            context.enter_scope();
            context.bind_variable(name);
            let t = rename_term(context, ty);
            let bs = rename_inductive_branches(context, branches);
            context.leave_scope();
            RenamedItem::Inductive { name: name.clone(), ty: Box::new(t), branches: bs }
        },
        LogicItem::Theorem { name, type_, body } => {
            context.enter_scope();
            context.bind_variable(name);
            let t = rename_term(context, type_);
            let b = rename_term(context, body);
            context.leave_scope();
            RenamedItem::Theorem { name: name.clone(), type_: Box::new(t), body: Box::new(b) }
        },
    }
}

/// Renames a file: every variable gets the identifier of the binding it refers to, and
/// every binder and unbound variable a fresh one, numbered from 0 in the order met.
pub fn rename_file(file: LogicFile) -> (r: RenamedFile)
    requires
        items_ids(file.items@, 0) <= usize::MAX,
    ensures
        ritems_view(r.items@) == rn_items(RState { file: 0, next: 0, stack: Seq::empty() }, file.items@, 0).1,
{
    let mut context = RenameContext::new(0);
    let ghost target = rn_items(context.state(), file.items@, 0);
    let mut out: Vec<RenamedItem> = Vec::new();
    let mut i: usize = 0;
    while i < file.items.len()
        invariant
            i <= file.items@.len(),
            rn_items(context.state(), file.items@, i as int).0 == target.0,
            ritems_view(out@) + rn_items(context.state(), file.items@, i as int).1 == target.1,
            context.next_variable_id + items_ids(file.items@, i as int) <= items_ids(file.items@, 0),
            items_ids(file.items@, 0) <= usize::MAX,
        decreases file.items@.len() - i,
    {
        let ghost before = context.state();
        let ghost rest_before = rn_items(before, file.items@, i as int);
        let item = rename_item(&mut context, &file.items[i]);
        proof {
            let r = rn_item(before, file.items@[i as int]);
            assert(rest_before.1 == seq![r.1] + rn_items(r.0, file.items@, i + 1).1);
            assert(ritems_view(out@.push(item)) =~= ritems_view(out@).push(ritem_view(item)));
            assert(ritems_view(out@).push(ritem_view(item)) + rn_items(context.state(), file.items@, i + 1).1
                =~= ritems_view(out@) + rest_before.1);
        }
        out.push(item);
        i = i + 1;
    }
    assert(ritems_view(out@) + Seq::<SRItem>::empty() =~= ritems_view(out@));
    RenamedFile { items: out }
}

} // verus!
