use std::collections::HashMap;
use std::rc::Rc;
use vstd::prelude::*;
use vstd::string::*;

use crate::id::Id;
use crate::term::{clone_term, STerm, Term};
use crate::text::{concat3, id_text, id_to_string};

verus! {

broadcast use {
    vstd::std_specs::hash::group_hash_axioms,
    vstd::std_specs::vec::group_vec_axioms,
};

/// The typing context Γ of a judgment Γ ⊢ t : T: the types of the local variables,
/// and the order in which they were bound.
pub struct LocalContext {
    bindings: HashMap<usize, Rc<Term>>,
    order: Vec<Id>,
}

/// The bindings of a context listed in the order in which they were made.
pub open spec fn bound_list(order: Seq<Id>, types: Map<Id, STerm>) -> Seq<(Id, STerm)>
    decreases order.len(),
{
    if order.len() == 0 {
        Seq::empty()
    } else {
        let rest = bound_list(order.drop_last(), types);
        let id = order.last();
        if types.contains_key(id) {
            rest.push((id, types[id]))
        } else {
            rest
        }
    }
}

/// `order` without the occurrences of `var`.
pub open spec fn without(order: Seq<Id>, var: Id) -> Seq<Id>
    decreases order.len(),
{
    if order.len() == 0 {
        Seq::empty()
    } else {
        let rest = without(order.drop_last(), var);
        if order.last() == var {
            rest
        } else {
            rest.push(order.last())
        }
    }
}

/// The message with which a second binding of `var` is refused.
pub open spec fn already_bound_message(var: Id) -> Seq<char> {
    "Variable "@ + id_text(var) + " is already bound in context"@
}

impl LocalContext {
    /// The type of each bound variable.
    pub closed spec fn types(&self) -> Map<Id, STerm> {
        Map::new(|k: Id| self.bindings@.contains_key(k.0), |k: Id| (*self.bindings@[k.0])@)
    }

    /// The bound variables, in the order in which they were bound.
    pub closed spec fn order(&self) -> Seq<Id> {
        self.order@
    }

    /// The order lists each bound variable exactly once.
    pub closed spec fn wf(&self) -> bool {
        &&& self.order@.no_duplicates()
        &&& forall|i: int| 0 <= i < self.order@.len() ==> self.bindings@.contains_key(#[trigger] self.order@[i].0)
        &&& forall|k: usize| self.bindings@.contains_key(k) ==> self.order@.contains(Id(k))
    }

    /// Creates an empty context.
    pub fn new() -> (c: LocalContext)
        ensures
            c.wf(),
            c.types() == Map::<Id, STerm>::empty(),
            c.order() == Seq::<Id>::empty(),
    {
        let c = LocalContext { bindings: HashMap::new(), order: Vec::new() };
        assert(c.types() =~= Map::<Id, STerm>::empty());
        c
    }

    /// Binds `var` to `ty`; refuses a variable that is already bound.
    pub fn extend(&mut self, var: Id, ty: Rc<Term>) -> (r: Result<(), String>)
        ensures
            old(self).types().contains_key(var) ==> {
                &&& r matches Err(msg) && msg@ == already_bound_message(var)
                &&& final(self).types() == old(self).types()
                &&& final(self).order() == old(self).order()
            },
            !old(self).types().contains_key(var) ==> {
                &&& r is Ok
                &&& final(self).types() == old(self).types().insert(var, ty@)
                &&& final(self).order() == old(self).order().push(var)
            },
            old(self).wf() ==> final(self).wf(),
    {
        if self.bindings.contains_key(&var.0) {
            assert(old(self).types().contains_key(var));
            let v = id_to_string(var);
            proof {
                reveal_strlit("Variable ");
                reveal_strlit(" is already bound in context");
            }
            return Err(concat3("Variable ", v.as_str(), " is already bound in context"));
        }
        assert(!old(self).types().contains_key(var));
        self.bindings.insert(var.0, ty);
        self.order.push(var);
        assert(self.types() =~= old(self).types().insert(var, ty@));
        proof {
            if old(self).wf() {
                assert forall|k: usize| self.bindings@.contains_key(k) implies self.order@.contains(Id(k)) by {
                    if k != var.0 {
                        let j = choose|j: int| 0 <= j < old(self).order@.len() && old(self).order@[j] == Id(k);
                        assert(self.order@[j] == Id(k));
                    } else {
                        assert(self.order@[self.order@.len() - 1] == Id(k));
                    }
                }
                assert forall|i: int, j: int| 0 <= i < j < self.order@.len() implies self.order@[i] != self.order@[j] by {
                    if j == self.order@.len() - 1 {
                        assert(old(self).bindings@.contains_key(old(self).order@[i].0));
                    }
                }
            }
        }
        Ok(())
    }

    /// A copy of this context with `var` bound to `ty`; when `var` is already bound,
    /// the copy is unchanged.
    pub fn with(&self, var: Id, ty: Rc<Term>) -> (c: LocalContext)
        ensures
            self.types().contains_key(var) ==> c.types() == self.types() && c.order() == self.order(),
            !self.types().contains_key(var) ==> c.types() == self.types().insert(var, ty@)
                && c.order() == self.order().push(var),
            self.wf() ==> c.wf(),
    {
        let mut new_ctx = self.duplicate();
        let _ = new_ctx.extend(var, ty);
        new_ctx
    }

    /// A copy of this context.
    pub fn duplicate(&self) -> (c: LocalContext)
        ensures
            c.types() == self.types(),
            c.order() == self.order(),
            self.wf() ==> c.wf(),
    {
        let c = LocalContext { bindings: self.bindings.clone(), order: crate::term::clone_ids(&self.order) };
        assert(c.types() =~= self.types());
        c
    }

    /// The type of `var`, if it is bound.
    pub fn lookup(&self, var: Id) -> (r: Option<Rc<Term>>)
        ensures
            match r {
                Some(t) => self.types().contains_key(var) && t@ == self.types()[var],
                None => !self.types().contains_key(var),
            },
    {
        match self.bindings.get(&var.0) {
            Some(t) => Some(Rc::new(clone_term(t))),
            None => None,
        }
    }

    pub fn contains(&self, var: Id) -> (r: bool)
        ensures
            r == self.types().contains_key(var),
    {
        self.bindings.contains_key(&var.0)
    }

    /// The number of bindings.
    pub fn len(&self) -> (r: usize)
        ensures
            r == self.order().len(),
    {
        self.order.len()
    }

    pub fn is_empty(&self) -> (r: bool)
        ensures
            r <==> forall|k: Id| !self.types().contains_key(k),
    {
        let r = self.bindings.is_empty();
        proof {
            if !r {
                let k = choose|k: usize| self.bindings@.contains_key(k);
                assert(self.types().contains_key(Id(k)));
            }
        }
        r
    }

    /// Removes the binding of `var`, if any, and returns its type.
    pub fn remove(&mut self, var: Id) -> (r: Option<Rc<Term>>)
        ensures
            final(self).types() == old(self).types().remove(var),
            final(self).order() == without(old(self).order(), var),
            match r {
                Some(t) => old(self).types().contains_key(var) && t@ == old(self).types()[var],
                None => !old(self).types().contains_key(var),
            },
            old(self).wf() ==> final(self).wf(),
    {
        let ghost old_order = self.order@;
        let mut kept: Vec<Id> = Vec::new();
        let mut i: usize = 0;
        while i < self.order.len()
            invariant
                i <= self.order@.len(),
                self.order@ == old_order,
                kept@ == without(old_order.take(i as int), var),
                forall|a: Id| kept@.contains(a) <==> (old_order.take(i as int).contains(a) && a != var),
                old_order.no_duplicates() ==> kept@.no_duplicates(),
            decreases self.order@.len() - i,
        {
            let v = self.order[i];
            assert(old_order.take(i + 1).drop_last() =~= old_order.take(i as int));
            assert(old_order.take(i + 1).last() == v);
            proof {
                assert forall|a: Id| old_order.take(i + 1).contains(a) <==> (old_order.take(i as int).contains(a) || a == v) by {
                    if old_order.take(i + 1).contains(a) && a != v {
                        let j = choose|j: int| 0 <= j < i + 1 && #[trigger] old_order.take(i + 1)[j] == a;
                        assert(old_order.take(i as int)[j] == a);
                    }
                    if old_order.take(i as int).contains(a) {
                        let j = choose|j: int| 0 <= j < i && #[trigger] old_order.take(i as int)[j] == a;
                        assert(old_order.take(i + 1)[j] == a);
                    }
                    if a == v {
                        assert(old_order.take(i + 1)[i as int] == a);
                    }
                }
                if old_order.no_duplicates() {
                    assert(!old_order.take(i as int).contains(v));
                }
            }
            let ghost prev = kept@;
            if v != var {
                kept.push(v);
            }
            proof {
                assert forall|a: Id| kept@.contains(a) <==> (prev.contains(a) || (a == v && v != var)) by {
                    if v != var {
                        if kept@.contains(a) && a != v {
                            let j = choose|j: int| 0 <= j < kept@.len() && #[trigger] kept@[j] == a;
                            assert(prev[j] == a);
                        }
                        if prev.contains(a) {
                            let j = choose|j: int| 0 <= j < prev.len() && #[trigger] prev[j] == a;
                            assert(kept@[j] == a);
                        }
                        assert(kept@[prev.len() as int] == v);
                    }
                }
                assert forall|a: Id| kept@.contains(a) <==> (old_order.take(i + 1).contains(a) && a != var) by {
                    assert(kept@.contains(a) <==> (prev.contains(a) || (a == v && v != var)));
                    assert(prev.contains(a) <==> (old_order.take(i as int).contains(a) && a != var));
                    assert(old_order.take(i + 1).contains(a) <==> (old_order.take(i as int).contains(a) || a == v));
                }
                if old_order.no_duplicates() && v != var {
                    assert(!prev.contains(v));
                    assert forall|x: int, y: int| 0 <= x < y < kept@.len() implies kept@[x] != kept@[y] by {
                        if y == prev.len() {
                            assert(prev.contains(kept@[x]));
                        }
                    }
                }
            }
            i = i + 1;
        }
        assert(old_order.take(old_order.len() as int) =~= old_order);
        let r = self.bindings.remove(&var.0);
        self.order = kept;
        assert(self.types() =~= old(self).types().remove(var));
        proof {
            if old(self).wf() {
                assert forall|j: int| 0 <= j < self.order@.len() implies self.bindings@.contains_key(#[trigger] self.order@[j].0) by {
                    assert(self.order@.contains(self.order@[j]));
                    let k = choose|k: int| 0 <= k < old_order.len() && old_order[k] == self.order@[j];
                }
                assert forall|k: usize| self.bindings@.contains_key(k) implies self.order@.contains(Id(k)) by {
                    assert(old(self).bindings@.contains_key(k));
                }
            }
        }
        r
    }

    /// The bindings, in the order in which they were made.
    pub fn iter(&self) -> (r: Vec<(Id, Rc<Term>)>)
        ensures
            r@.len() == bound_list(self.order(), self.types()).len(),
            forall|i: int| 0 <= i < r@.len() ==> (#[trigger] r@[i]).0 == bound_list(self.order(), self.types())[i].0
                && (*r@[i].1)@ == bound_list(self.order(), self.types())[i].1,
    {
        let mut r: Vec<(Id, Rc<Term>)> = Vec::new();
        let mut i: usize = 0;
        while i < self.order.len()
            invariant
                i <= self.order@.len(),
                r@.len() == bound_list(self.order@.take(i as int), self.types()).len(),
                forall|j: int| 0 <= j < r@.len() ==> (#[trigger] r@[j]).0 == bound_list(self.order@.take(i as int), self.types())[j].0
                    && (*r@[j].1)@ == bound_list(self.order@.take(i as int), self.types())[j].1,
            decreases self.order@.len() - i,
        {
            let id = self.order[i];
            assert(self.order@.take(i + 1).drop_last() =~= self.order@.take(i as int));
            match self.bindings.get(&id.0) {
                Some(t) => {
                    r.push((id, Rc::new(clone_term(t))));
                },
                None => {},
            }
            i = i + 1;
        }
        assert(self.order@.take(self.order@.len() as int) =~= self.order@);
        r
    }
}

impl Default for LocalContext {
    fn default() -> (c: LocalContext)
        ensures
            c.wf(),
            c.types() == Map::<Id, STerm>::empty(),
            c.order() == Seq::<Id>::empty(),
    {
        LocalContext::new()
    }
}

impl Clone for LocalContext {
    fn clone(&self) -> (c: LocalContext)
        ensures
            c.types() == self.types(),
            c.order() == self.order(),
    {
        self.duplicate()
    }
}

/// `without` drops nothing from an order that does not hold `var`.
proof fn lemma_without_absent(order: Seq<Id>, var: Id)
    requires
        !order.contains(var),
    ensures
        without(order, var) == order,
    decreases order.len(),
{
    if order.len() > 0 {
        assert(!order.drop_last().contains(var)) by {
            if order.drop_last().contains(var) {
                let j = choose|j: int| 0 <= j < order.drop_last().len() && order.drop_last()[j] == var;
                assert(order[j] == var);
            }
        }
        lemma_without_absent(order.drop_last(), var);
        assert(order.last() != var) by {
            assert(order[order.len() - 1] == order.last());
        }
        assert(order.drop_last().push(order.last()) =~= order);
    }
}

/// Binding a fresh variable and removing it again gives back the context: the same types,
/// and the other variables in the same order.
pub proof fn lemma_extend_remove_round_trip(c: LocalContext, var: Id, ty: STerm)
    requires
        c.wf(),
        !c.types().contains_key(var),
    ensures
        c.types().insert(var, ty).remove(var) == c.types(),
        without(c.order().push(var), var) == c.order(),
{
    assert(c.types().insert(var, ty).remove(var) =~= c.types());
    assert(!c.order().contains(var)) by {
        if c.order().contains(var) {
            let j = choose|j: int| 0 <= j < c.order@.len() && c.order@[j] == var;
            assert(c.bindings@.contains_key(c.order@[j].0));
        }
    }
    lemma_without_absent(c.order(), var);
    let o = c.order().push(var);
    assert(o.drop_last() =~= c.order());
}

} // verus!
