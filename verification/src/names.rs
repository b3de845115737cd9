use vstd::prelude::*;

verus! {

broadcast use vstd::std_specs::vec::group_vec_axioms;

/// A table from names to values; a later entry for a name replaces the earlier ones.
pub struct NameMap<V> {
    pub entries: Vec<(String, V)>,
}

/// The map that a list of entries denotes: the last entry of each name wins.
pub open spec fn map_of<V>(entries: Seq<(String, V)>) -> Map<Seq<char>, V>
    decreases entries.len(),
{
    if entries.len() == 0 {
        Map::empty()
    } else {
        map_of(entries.drop_last()).insert(entries.last().0@, entries.last().1)
    }
}

impl<V> NameMap<V> {
    pub open spec fn view(&self) -> Map<Seq<char>, V> {
        map_of(self.entries@)
    }

    pub fn new() -> (m: NameMap<V>)
        ensures
            m@ == Map::<Seq<char>, V>::empty(),
            m.wf(),
    {
        NameMap { entries: Vec::new() }
    }

    /// No name has two entries.
    pub open spec fn wf(&self) -> bool {
        forall|i: int, j: int|
            0 <= i < j < self.entries@.len() ==> #[trigger] self.entries@[i].0@ != #[trigger] self.entries@[j].0@
    }

    /// Binds `name` to `value`, replacing an earlier binding of `name`.
    pub fn insert(&mut self, name: String, value: V)
        ensures
            final(self)@ == old(self)@.insert(name@, value),
            old(self).wf() ==> final(self).wf(),
    {
        let ghost k = name@;
        let n = self.entries.len();
        let mut i: usize = n;
        while i > 0
            invariant
                n == self.entries@.len(),
                self.entries@ == old(self).entries@,
                k == name@,
                i <= n,
                forall|j: int| i <= j < n ==> #[trigger] self.entries@[j].0@ != k,
            decreases i,
        {
            let same = text_eq(self.entries[i - 1].0.as_str(), name.as_str());
            if same {
                let ghost before = self.entries@;
                assert(before[i - 1].0@ == k);
                self.entries.set(i - 1, (name, value));
                proof {
                    lemma_replace_one(before, i - 1, k, value, self.entries@[i - 1].0);
                    assert(self.entries@ == before.update(i - 1, self.entries@[i - 1]));
                    if old(self).wf() {
                        assert forall|a: int, b: int|
                            0 <= a < b < self.entries@.len() implies #[trigger] self.entries@[a].0@
                            != #[trigger] self.entries@[b].0@ by {
                            assert(before[a].0@ != before[b].0@);
                        }
                    }
                }
                return;
            }
            i = i - 1;
        }
        let ghost before = self.entries@;
        self.entries.push((name, value));
        assert(self.entries@.drop_last() =~= old(self).entries@);
        proof {
            if old(self).wf() {
                assert forall|a: int, b: int|
                    0 <= a < b < self.entries@.len() implies #[trigger] self.entries@[a].0@
                    != #[trigger] self.entries@[b].0@ by {
                    if b < n {
                        assert(before[a].0@ != before[b].0@);
                    } else {
                        assert(before[a].0@ != k);
                    }
                }
            }
        }
    }

    /// The number of names bound.
    pub fn len(&self) -> (r: usize)
        requires
            self.wf(),
        ensures
            r == self@.dom().len(),
    {
        proof {
            lemma_map_of_len(self.entries@);
        }
        self.entries.len()
    }

    /// The value bound to `name`.
    pub fn get(&self, name: &str) -> (r: Option<&V>)
        ensures
            match r {
                Some(v) => self@.contains_key(name@) && *v == self@[name@],
                None => !self@.contains_key(name@),
            },
    {
        let mut i = self.entries.len();
        assert(self.entries@.take(i as int) =~= self.entries@);
        while i > 0
            invariant
                i <= self.entries@.len(),
                map_of(self.entries@).contains_key(name@) == map_of(self.entries@.take(i as int)).contains_key(
                    name@,
                ),
                map_of(self.entries@).contains_key(name@) ==> map_of(self.entries@)[name@] == map_of(
                    self.entries@.take(i as int),
                )[name@],
            decreases i,
        {
            i = i - 1;
            let ghost prefix = self.entries@.take(i + 1);
            assert(prefix.drop_last() =~= self.entries@.take(i as int));
            assert(prefix.last() == self.entries@[i as int]);
            if text_eq(self.entries[i].0.as_str(), name) {
                return Some(&self.entries[i].1);
            }
        }
        None
    }

    /// Whether `name` is bound.
    pub fn contains_key(&self, name: &str) -> (r: bool)
        ensures
            r == self@.contains_key(name@),
    {
        self.get(name).is_some()
    }

    /// Removes every binding.
    pub fn clear(&mut self)
        ensures
            final(self)@ == Map::<Seq<char>, V>::empty(),
            final(self).wf(),
    {
        self.entries = Vec::new();
    }
}

impl<V: Copy> NameMap<V> {
    /// A copy of the table.
    pub fn duplicate(&self) -> (m: NameMap<V>)
        ensures
            m@ == self@,
    {
        let mut entries: Vec<(String, V)> = Vec::new();
        let mut i: usize = 0;
        while i < self.entries.len()
            invariant
                i <= self.entries@.len(),
                entries@.len() == i,
                forall|j: int| 0 <= j < i ==> #[trigger] entries@[j].0@ == self.entries@[j].0@ && entries@[j].1 == self.entries@[j].1,
            decreases self.entries@.len() - i,
        {
            let name = self.entries[i].0.clone();
            entries.push((name, self.entries[i].1));
            i = i + 1;
        }
        let m = NameMap { entries };
        proof {
            lemma_map_of_same(m.entries@, self.entries@);
        }
        m
    }
}

impl NameMap<String> {
    /// A copy of the table.
    pub fn duplicate_text(&self) -> (m: NameMap<String>)
        ensures
            m@ == self@,
    {
        let mut entries: Vec<(String, String)> = Vec::new();
        let mut i: usize = 0;
        while i < self.entries.len()
            invariant
                i <= self.entries@.len(),
                entries@.len() == i,
                forall|j: int| 0 <= j < i ==> #[trigger] entries@[j].0@ == self.entries@[j].0@ && entries@[j].1 == self.entries@[j].1,
            decreases self.entries@.len() - i,
        {
            let name = self.entries[i].0.clone();
            let value = self.entries[i].1.clone();
            entries.push((name, value));
            i = i + 1;
        }
        let m = NameMap { entries };
        proof {
            lemma_map_of_same(m.entries@, self.entries@);
        }
        m
    }
}

/// The names that a list of entries binds.
pub open spec fn keys_of<V>(entries: Seq<(String, V)>) -> Set<Seq<char>> {
    Set::new(|k: Seq<char>| exists|j: int| 0 <= j < entries.len() && #[trigger] entries[j].0@ == k)
}

proof fn lemma_map_of_dom<V>(entries: Seq<(String, V)>)
    ensures
        map_of(entries).dom() == keys_of(entries),
        map_of(entries).dom().finite(),
    decreases entries.len(),
{
    if entries.len() > 0 {
        let p = entries.drop_last();
        lemma_map_of_dom(p);
        assert forall|k: Seq<char>| map_of(entries).dom().contains(k) <==> keys_of(entries).contains(k) by {
            if keys_of(entries).contains(k) {
                let j = choose|j: int| 0 <= j < entries.len() && #[trigger] entries[j].0@ == k;
                if j < entries.len() - 1 {
                    assert(p[j].0@ == k);
                    assert(keys_of(p).contains(k));
                }
            }
            if map_of(entries).dom().contains(k) && k != entries.last().0@ {
                assert(keys_of(p).contains(k));
                let j = choose|j: int| 0 <= j < p.len() && #[trigger] p[j].0@ == k;
                assert(entries[j].0@ == k);
            }
            if k == entries.last().0@ {
                assert(entries[entries.len() - 1].0@ == k);
            }
        }
        assert(map_of(entries).dom() =~= keys_of(entries));
    } else {
        assert(map_of(entries).dom() =~= keys_of(entries));
    }
}

proof fn lemma_map_of_len<V>(entries: Seq<(String, V)>)
    requires
        forall|i: int, j: int| 0 <= i < j < entries.len() ==> #[trigger] entries[i].0@ != #[trigger] entries[j].0@,
    ensures
        map_of(entries).dom().len() == entries.len(),
    decreases entries.len(),
{
    if entries.len() > 0 {
        let p = entries.drop_last();
        assert forall|i: int, j: int| 0 <= i < j < p.len() implies #[trigger] p[i].0@ != #[trigger] p[j].0@ by {
            assert(entries[i] == p[i] && entries[j] == p[j]);
        }
        lemma_map_of_len(p);
        lemma_map_of_dom(p);
        if map_of(p).dom().contains(entries.last().0@) {
            let j = choose|j: int| 0 <= j < p.len() && #[trigger] p[j].0@ == entries.last().0@;
            assert(entries[j].0@ == entries[entries.len() - 1].0@);
        }
    }
}

proof fn lemma_replace_one<V>(entries: Seq<(String, V)>, i: int, k: Seq<char>, v: V, s: String)
    requires
        0 <= i < entries.len(),
        entries[i].0@ == k,
        s@ == k,
        forall|j: int| i < j < entries.len() ==> #[trigger] entries[j].0@ != k,
    ensures
        map_of(entries.update(i, (s, v))) == map_of(entries).insert(k, v),
    decreases entries.len(),
{
    let u = entries.update(i, (s, v));
    if i == entries.len() - 1 {
        assert(u.drop_last() =~= entries.drop_last());
        assert(map_of(u) =~= map_of(entries).insert(k, v));
    } else {
        let p = entries.drop_last();
        assert forall|j: int| i < j < p.len() implies #[trigger] p[j].0@ != k by {
            assert(entries[j] == p[j]);
        }
        lemma_replace_one(p, i, k, v, s);
        assert(u.drop_last() =~= p.update(i, (s, v)));
        assert(entries[entries.len() - 1].0@ != k);
        assert(u.last() == entries.last());
        assert(map_of(u) =~= map_of(entries).insert(k, v));
    }
}

proof fn lemma_map_of_same<V>(a: Seq<(String, V)>, b: Seq<(String, V)>)
    requires
        a.len() == b.len(),
        forall|j: int| 0 <= j < a.len() ==> #[trigger] a[j].0@ == b[j].0@ && a[j].1 == b[j].1,
    ensures
        map_of(a) == map_of(b),
    decreases a.len(),
{
    if a.len() > 0 {
        lemma_map_of_same(a.drop_last(), b.drop_last());
    }
}

/// Whether two texts are equal, character by character.
pub fn text_eq(a: &str, b: &str) -> (r: bool)
    ensures
        r == (a@ == b@),
{
    let n = a.unicode_len();
    if n != b.unicode_len() {
        return false;
    }
    let mut i: usize = 0;
    while i < n
        invariant
            n == a@.len(),
            n == b@.len(),
            i <= n,
            forall|j: int| 0 <= j < i ==> a@[j] == b@[j],
        decreases n - i,
    {
        if a.get_char(i) != b.get_char(i) {
            return false;
        }
        i = i + 1;
    }
    assert(a@ =~= b@);
    true
}

} // verus!
