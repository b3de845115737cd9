use vstd::laws_eq::obeys_concrete_eq;
use vstd::prelude::*;
use vstd::std_specs::cmp::PartialEqSpec;

verus! {

broadcast use vstd::std_specs::vec::group_vec_axioms;

/// One level of bindings; a later binding of a key hides an earlier one.
pub struct Scope<K, V> {
    pub binds: Vec<(K, V)>,
}

/// The value of the latest binding in `binds` whose key equals `key`.
pub open spec fn latest<K: PartialEq, V>(binds: Seq<(K, V)>, key: K) -> Option<V>
    decreases binds.len(),
{
    if binds.len() == 0 {
        None
    } else if binds.last().0.eq_spec(&key) {
        Some(binds.last().1)
    } else {
        latest(binds.drop_last(), key)
    }
}

/// The value of `key` in a stack of scopes: the innermost scope that binds it decides.
pub open spec fn innermost<K: PartialEq, V>(scopes: Seq<Seq<(K, V)>>, key: K) -> Option<V>
    decreases scopes.len(),
{
    if scopes.len() == 0 {
        None
    } else {
        match latest(scopes.last(), key) {
            Some(v) => Some(v),
            None => innermost(scopes.drop_last(), key),
        }
    }
}

impl<K, V> Scope<K, V> {
    /// Binds `key` to `value`, after the earlier bindings.
    pub fn set(&mut self, key: K, value: V)
        ensures
            final(self).binds@ == old(self).binds@.push((key, value)),
    {
        self.binds.push((key, value));
    }

    /// The value of the latest binding of `key`.
    pub fn get(&self, key: &K) -> (r: Option<&V>)
        where
            K: PartialEq,
        ensures
            K::obeys_eq_spec() ==> match latest(self.binds@, *key) {
                Some(v) => r matches Some(x) && *x == v,
                None => r is None,
            },
    {
        let mut i = self.binds.len();
        assert(self.binds@.take(i as int) =~= self.binds@);
        while i > 0
            invariant
                i <= self.binds@.len(),
                K::obeys_eq_spec() ==> latest(self.binds@, *key) == latest(self.binds@.take(i as int), *key),
            decreases i,
        {
            i = i - 1;
            let ghost prefix = self.binds@.take(i + 1);
            assert(prefix.drop_last() =~= self.binds@.take(i as int));
            assert(prefix.last() == self.binds@[i as int]);
            if self.binds[i].0.eq(key) {
                return Some(&self.binds[i].1);
            }
        }
        None
    }

    /// All the bindings, oldest first.
    pub fn binds(&self) -> (r: &[(K, V)])
        ensures
            r@ == self.binds@,
    {
        self.binds.as_slice()
    }
}

/// A stack of scopes; bindings go into the innermost one.
pub struct ScopeStack<K, V> {
    pub scopes: Vec<Scope<K, V>>,
}

impl<K, V> ScopeStack<K, V> {
    /// The bindings of each scope, outermost first.
    pub open spec fn stack(&self) -> Seq<Seq<(K, V)>> {
        self.scopes@.map_values(|s: Scope<K, V>| s.binds@)
    }

    pub fn new() -> (s: ScopeStack<K, V>)
        ensures
            s.stack() == Seq::<Seq<(K, V)>>::empty(),
            s.scopes@.len() == 0,
    {
        let s = ScopeStack { scopes: Vec::new() };
        assert(s.stack() =~= Seq::<Seq<(K, V)>>::empty());
        s
    }

    /// Opens a new, empty innermost scope.
    pub fn enter_scope(&mut self)
        ensures
            final(self).stack() == old(self).stack().push(Seq::<(K, V)>::empty()),
            final(self).scopes@.len() == old(self).scopes@.len() + 1,
    {
        self.scopes.push(Scope { binds: Vec::new() });
        assert(self.stack() =~= old(self).stack().push(Seq::<(K, V)>::empty()));
    }

    /// Closes the innermost scope and hands it back.
    pub fn leave_scope(&mut self) -> (r: Scope<K, V>)
        requires
            old(self).scopes@.len() > 0,
        ensures
            final(self).stack() == old(self).stack().drop_last(),
            final(self).scopes@.len() == old(self).scopes@.len() - 1,
            r.binds@ == old(self).stack().last(),
    {
        let r = self.scopes.pop().unwrap();
        assert(self.stack() =~= old(self).stack().drop_last());
        r
    }

    /// Binds `key` to `value` in the innermost scope; without a scope, nothing happens.
    pub fn set(&mut self, key: K, value: V)
        ensures
            old(self).scopes@.len() == 0 ==> final(self).stack() == old(self).stack(),
            old(self).scopes@.len() > 0 ==> final(self).stack() == old(self).stack().drop_last().push(
                old(self).stack().last().push((key, value)),
            ),
            final(self).scopes@.len() == old(self).scopes@.len(),
    {
        match self.scopes.pop() {
            Some(mut scope) => {
                scope.set(key, value);
                self.scopes.push(scope);
                assert(self.stack() =~= old(self).stack().drop_last().push(
                    old(self).stack().last().push((key, value)),
                ));
            },
            None => {},
        }
    }

    /// The value of `key` in the innermost scope that binds it.
    pub fn get(&self, key: &K) -> (r: Option<&V>)
        where
            K: PartialEq,
        ensures
            K::obeys_eq_spec() ==> match innermost(self.stack(), *key) {
                Some(v) => r matches Some(x) && *x == v,
                None => r is None,
            },
    {
        let mut i = self.scopes.len();
        assert(self.stack().take(i as int) =~= self.stack());
        while i > 0
            invariant
                i <= self.scopes@.len(),
                K::obeys_eq_spec() ==> innermost(self.stack(), *key) == innermost(self.stack().take(i as int), *key),
            decreases i,
        {
            i = i - 1;
            let ghost prefix = self.stack().take(i + 1);
            assert(prefix.drop_last() =~= self.stack().take(i as int));
            assert(prefix.last() == self.scopes@[i as int].binds@);
            match self.scopes[i].get(key) {
                Some(v) => {
                    return Some(v);
                },
                None => {},
            }
        }
        None
    }
}

/// The value of the latest binding in `binds` whose key reads as the text `key`.
pub open spec fn latest_text<K: View<V = Seq<char>>, V>(binds: Seq<(K, V)>, key: Seq<char>) -> Option<V>
    decreases binds.len(),
{
    if binds.len() == 0 {
        None
    } else if binds.last().0@ == key {
        Some(binds.last().1)
    } else {
        latest_text(binds.drop_last(), key)
    }
}

/// The value of the text `key` in a stack of scopes: the innermost scope that binds it
/// decides.
pub open spec fn innermost_text<K: View<V = Seq<char>>, V>(scopes: Seq<Seq<(K, V)>>, key: Seq<char>) -> Option<V>
    decreases scopes.len(),
{
    if scopes.len() == 0 {
        None
    } else {
        match latest_text(scopes.last(), key) {
            Some(v) => Some(v),
            None => innermost_text(scopes.drop_last(), key),
        }
    }
}

impl<'a, V> Scope<&'a str, V> {
    /// The value of the latest binding of the text `key`.
    pub fn get_text(&self, key: &str) -> (r: Option<&V>)
        ensures
            match latest_text(self.binds@, key@) {
                Some(v) => r matches Some(x) && *x == v,
                None => r is None,
            },
    {
        let mut i = self.binds.len();
        assert(self.binds@.take(i as int) =~= self.binds@);
        while i > 0
            invariant
                i <= self.binds@.len(),
                latest_text(self.binds@, key@) == latest_text(self.binds@.take(i as int), key@),
            decreases i,
        {
            i = i - 1;
            let ghost prefix = self.binds@.take(i + 1);
            assert(prefix.drop_last() =~= self.binds@.take(i as int));
            assert(prefix.last() == self.binds@[i as int]);
            if crate::names::text_eq(self.binds[i].0, key) {
                return Some(&self.binds[i].1);
            }
        }
        None
    }
}

impl<V> Scope<String, V> {
    /// The value of the latest binding of the text `key`.
    pub fn get_text(&self, key: &str) -> (r: Option<&V>)
        ensures
            match latest_text(self.binds@, key@) {
                Some(v) => r matches Some(x) && *x == v,
                None => r is None,
            },
    {
        let mut i = self.binds.len();
        assert(self.binds@.take(i as int) =~= self.binds@);
        while i > 0
            invariant
                i <= self.binds@.len(),
                latest_text(self.binds@, key@) == latest_text(self.binds@.take(i as int), key@),
            decreases i,
        {
            i = i - 1;
            let ghost prefix = self.binds@.take(i + 1);
            assert(prefix.drop_last() =~= self.binds@.take(i as int));
            assert(prefix.last() == self.binds@[i as int]);
            if crate::names::text_eq(self.binds[i].0.as_str(), key) {
                return Some(&self.binds[i].1);
            }
        }
        None
    }
}

impl<'a, V> ScopeStack<&'a str, V> {
    /// The value of the text `key` in the innermost scope that binds it.
    pub fn get_text(&self, key: &str) -> (r: Option<&V>)
        ensures
            match innermost_text(self.stack(), key@) {
                Some(v) => r matches Some(x) && *x == v,
                None => r is None,
            },
    {
        let mut i = self.scopes.len();
        assert(self.stack().take(i as int) =~= self.stack());
        while i > 0
            invariant
                i <= self.scopes@.len(),
                innermost_text(self.stack(), key@) == innermost_text(self.stack().take(i as int), key@),
            decreases i,
        {
            i = i - 1;
            let ghost prefix = self.stack().take(i + 1);
            assert(prefix.drop_last() =~= self.stack().take(i as int));
            assert(prefix.last() == self.scopes@[i as int].binds@);
            match self.scopes[i].get_text(key) {
                Some(v) => {
                    return Some(v);
                },
                None => {},
            }
        }
        None
    }
}

impl<V> ScopeStack<String, V> {
    /// The value of the text `key` in the innermost scope that binds it.
    pub fn get_text(&self, key: &str) -> (r: Option<&V>)
        ensures
            match innermost_text(self.stack(), key@) {
                Some(v) => r matches Some(x) && *x == v,
                None => r is None,
            },
    {
        let mut i = self.scopes.len();
        assert(self.stack().take(i as int) =~= self.stack());
        while i > 0
            invariant
                i <= self.scopes@.len(),
                innermost_text(self.stack(), key@) == innermost_text(self.stack().take(i as int), key@),
            decreases i,
        {
            i = i - 1;
            let ghost prefix = self.stack().take(i + 1);
            assert(prefix.drop_last() =~= self.stack().take(i as int));
            assert(prefix.last() == self.scopes@[i as int].binds@);
            match self.scopes[i].get_text(key) {
                Some(v) => {
                    return Some(v);
                },
                None => {},
            }
        }
        None
    }
}

/// Shadowing: a lookup in a stack of scopes finds the binding of the innermost scope that
/// binds the key, and finds nothing exactly when no scope binds it.
pub proof fn lemma_innermost_shadowing<K: PartialEq, V>(scopes: Seq<Seq<(K, V)>>, key: K)
    ensures
        innermost(scopes, key) is None <==> forall|i: int| 0 <= i < scopes.len() ==> #[trigger] latest(scopes[i], key) is None,
        forall|i: int|
            0 <= i < scopes.len() && #[trigger] latest(scopes[i], key) is Some && (forall|j: int| i < j < scopes.len() ==> latest(scopes[j], key) is None)
                ==> innermost(scopes, key) == latest(scopes[i], key),
    decreases scopes.len(),
{
    if scopes.len() > 0 {
        let rest = scopes.drop_last();
        let n = scopes.len() - 1;
        lemma_innermost_shadowing(rest, key);
        assert(scopes[n] == scopes.last());
        assert forall|i: int| 0 <= i < n implies scopes[i] == rest[i] by {}
        if latest(scopes.last(), key) is Some {
            assert(latest(scopes[n], key) is Some);
            assert forall|i: int|
                0 <= i < scopes.len() && #[trigger] latest(scopes[i], key) is Some && (forall|j: int| i < j < scopes.len() ==> latest(scopes[j], key) is None)
                implies innermost(scopes, key) == latest(scopes[i], key) by {
                if i < n {
                    assert(latest(scopes[n], key) is None);
                }
            }
        } else {
            assert forall|i: int|
                0 <= i < scopes.len() && #[trigger] latest(scopes[i], key) is Some && (forall|j: int| i < j < scopes.len() ==> latest(scopes[j], key) is None)
                implies innermost(scopes, key) == latest(scopes[i], key) by {
                assert(i < n);
                assert(latest(rest[i], key) is Some);
                assert forall|j: int| i < j < rest.len() implies latest(rest[j], key) is None by {
                    assert(latest(scopes[j], key) is None);
                }
            }
            if innermost(scopes, key) is None {
                assert forall|i: int| 0 <= i < scopes.len() implies #[trigger] latest(scopes[i], key) is None by {
                    if i < n {
                        assert(latest(rest[i], key) is None);
                    }
                }
            } else {
                let i = choose|i: int| 0 <= i < rest.len() && #[trigger] latest(rest[i], key) is Some;
                assert(latest(scopes[i], key) is Some);
            }
        }
    }
}

/// Shadowing for lookups by text, as `lemma_innermost_shadowing`.
pub proof fn lemma_innermost_text_shadowing<K: View<V = Seq<char>>, V>(scopes: Seq<Seq<(K, V)>>, key: Seq<char>)
    ensures
        innermost_text(scopes, key) is None <==> forall|i: int| 0 <= i < scopes.len() ==> #[trigger] latest_text(scopes[i], key) is None,
        forall|i: int|
            0 <= i < scopes.len() && #[trigger] latest_text(scopes[i], key) is Some && (forall|j: int| i < j < scopes.len() ==> latest_text(scopes[j], key) is None)
                ==> innermost_text(scopes, key) == latest_text(scopes[i], key),
    decreases scopes.len(),
{
    if scopes.len() > 0 {
        let rest = scopes.drop_last();
        let n = scopes.len() - 1;
        lemma_innermost_text_shadowing(rest, key);
        assert(scopes[n] == scopes.last());
        assert forall|i: int| 0 <= i < n implies scopes[i] == rest[i] by {}
        if latest_text(scopes.last(), key) is Some {
            assert(latest_text(scopes[n], key) is Some);
            assert forall|i: int|
                0 <= i < scopes.len() && #[trigger] latest_text(scopes[i], key) is Some && (forall|j: int| i < j < scopes.len() ==> latest_text(scopes[j], key) is None)
                implies innermost_text(scopes, key) == latest_text(scopes[i], key) by {
                if i < n {
                    assert(latest_text(scopes[n], key) is None);
                }
            }
        } else {
            assert forall|i: int|
                0 <= i < scopes.len() && #[trigger] latest_text(scopes[i], key) is Some && (forall|j: int| i < j < scopes.len() ==> latest_text(scopes[j], key) is None)
                implies innermost_text(scopes, key) == latest_text(scopes[i], key) by {
                assert(i < n);
                assert(latest_text(rest[i], key) is Some);
                assert forall|j: int| i < j < rest.len() implies latest_text(rest[j], key) is None by {
                    assert(latest_text(scopes[j], key) is None);
                }
            }
            if innermost_text(scopes, key) is None {
                assert forall|i: int| 0 <= i < scopes.len() implies #[trigger] latest_text(scopes[i], key) is None by {
                    if i < n {
                        assert(latest_text(rest[i], key) is None);
                    }
                }
            } else {
                let i = choose|i: int| 0 <= i < rest.len() && #[trigger] latest_text(rest[i], key) is Some;
                assert(latest_text(scopes[i], key) is Some);
            }
        }
    }
}

impl<K, V> Default for ScopeStack<K, V> {
    fn default() -> (s: ScopeStack<K, V>)
        ensures
            s.stack() == Seq::<Seq<(K, V)>>::empty(),
            s.scopes@.len() == 0,
    {
        ScopeStack::new()
    }
}

/// A lookup right after a binding of the same key finds the new value; other keys are
/// found as before.
pub proof fn lemma_latest_after_set<K: PartialEq, V>(binds: Seq<(K, V)>, key: K, value: V, other: K)
    requires
        obeys_concrete_eq::<K>(),
    ensures
        latest(binds.push((key, value)), key) == Some(value),
        other != key ==> latest(binds.push((key, value)), other) == latest(binds, other),
{
    reveal(obeys_concrete_eq);
    assert(binds.push((key, value)).drop_last() =~= binds);
}

/// In a stack, a binding in the innermost scope shadows every outer binding of the key,
/// and leaves the other keys as they were.
pub proof fn lemma_innermost_after_set<K: PartialEq, V>(
    scopes: Seq<Seq<(K, V)>>,
    key: K,
    value: V,
    other: K,
)
    requires
        obeys_concrete_eq::<K>(),
        scopes.len() > 0,
    ensures
        innermost(scopes.drop_last().push(scopes.last().push((key, value))), key) == Some(value),
        other != key ==> innermost(scopes.drop_last().push(scopes.last().push((key, value))), other)
            == innermost(scopes, other),
{
    let s2 = scopes.drop_last().push(scopes.last().push((key, value)));
    lemma_latest_after_set(scopes.last(), key, value, other);
    assert(s2.drop_last() =~= scopes.drop_last());
    assert(s2.last() == scopes.last().push((key, value)));
}

/// Entering a scope hides nothing, and leaving it brings back every earlier lookup.
pub proof fn lemma_enter_leave<K: PartialEq, V>(scopes: Seq<Seq<(K, V)>>, key: K)
    ensures
        innermost(scopes.push(Seq::<(K, V)>::empty()), key) == innermost(scopes, key),
        scopes.push(Seq::<(K, V)>::empty()).drop_last() == scopes,
{
    assert(scopes.push(Seq::<(K, V)>::empty()).drop_last() =~= scopes);
}

} // verus!
