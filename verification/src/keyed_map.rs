//! A keyed table: entries in insertion order, no key twice,
//! read as a finite map from key views to value views.
use vstd::prelude::*;

verus! {

/// Keys of a keyed table: compared and copied by their view.
pub trait MapKey: View + Sized {
    fn key_eq(&self, other: &Self) -> (r: bool)
        ensures
            r == (self@ == other@),
    ;

    fn key_clone(&self) -> (r: Self)
        ensures
            r@ == self@,
    ;
}

impl MapKey for String {
    fn key_eq(&self, other: &Self) -> (r: bool) {
        *self == *other
    }

    fn key_clone(&self) -> (r: Self) {
        self.clone()
    }
}

impl MapKey for u8 {
    fn key_eq(&self, other: &Self) -> (r: bool) {
        *self == *other
    }

    fn key_clone(&self) -> (r: Self) {
        *self
    }
}

impl MapKey for u32 {
    fn key_eq(&self, other: &Self) -> (r: bool) {
        *self == *other
    }

    fn key_clone(&self) -> (r: Self) {
        *self
    }
}

/// Entry `i` of the sequence has key `k`.
pub open spec fn key_at<K: View, V>(s: Seq<(K, V)>, k: K::V, i: int) -> bool {
    0 <= i < s.len() && s[i].0@ == k
}

/// No two entries share a key.
pub open spec fn keys_distinct<K: View, V>(s: Seq<(K, V)>) -> bool {
    forall|i: int, j: int| 0 <= i < s.len() && 0 <= j < s.len() && i != j ==> s[i].0@ != s[j].0@
}

/// The map that a sequence of entries stands for.
pub open spec fn entries_map<K: View, V: View>(s: Seq<(K, V)>) -> Map<K::V, V::V> {
    Map::new(
        |k: K::V| exists|i: int| key_at(s, k, i),
        |k: K::V| s[choose|i: int| key_at(s, k, i)].1@,
    )
}

/// With distinct keys, each entry is what the map holds for its key.
pub proof fn lemma_entries_map_at<K: View, V: View>(s: Seq<(K, V)>, i: int)
    requires
        keys_distinct(s),
        0 <= i < s.len(),
    ensures
        entries_map(s).contains_key(s[i].0@),
        entries_map(s)[s[i].0@] == s[i].1@,
{
    assert(key_at(s, s[i].0@, i));
    let j = choose|j: int| key_at(s, s[i].0@, j);
    assert(j == i);
}

/// A key is in the map exactly when some entry has it.
pub proof fn lemma_entries_map_dom<K: View, V: View>(s: Seq<(K, V)>, k: K::V)
    ensures
        entries_map(s).contains_key(k) <==> exists|i: int| key_at(s, k, i),
{
}

/// Appending an entry with a fresh key inserts it into the map.
pub proof fn lemma_entries_map_push<K: View, V: View>(s: Seq<(K, V)>, k: K, v: V)
    requires
        keys_distinct(s),
        !entries_map(s).contains_key(k@),
    ensures
        keys_distinct(s.push((k, v))),
        entries_map(s.push((k, v))) == entries_map(s).insert(k@, v@),
{
    let t = s.push((k, v));
    assert forall|i: int, j: int| 0 <= i < t.len() && 0 <= j < t.len() && i != j implies t[i].0@
        != t[j].0@ by {
        if i == s.len() {
            assert(!key_at(s, k@, j));
        } else if j == s.len() {
            assert(!key_at(s, k@, i));
        }
    }
    let m = entries_map(t);
    let m2 = entries_map(s).insert(k@, v@);
    assert forall|kk: K::V| #[trigger] m.contains_key(kk) <==> m2.contains_key(kk) by {
        if m.contains_key(kk) {
            let i = choose|i: int| key_at(t, kk, i);
            if i < s.len() {
                assert(key_at(s, kk, i));
            }
        }
        if m2.contains_key(kk) && kk != k@ {
            let i = choose|i: int| key_at(s, kk, i);
            assert(key_at(t, kk, i));
        }
        if kk == k@ {
            assert(key_at(t, kk, s.len() as int));
        }
    }
    assert forall|kk: K::V| m.contains_key(kk) implies m[kk] == m2[kk] by {
        let i = choose|i: int| key_at(t, kk, i);
        lemma_entries_map_at(t, i);
        if i < s.len() {
            lemma_entries_map_at(s, i);
        }
    }
    assert(m =~= m2);
}

/// Removing entry `i` removes its key from the map.
pub proof fn lemma_entries_map_remove<K: View, V: View>(s: Seq<(K, V)>, i: int)
    requires
        keys_distinct(s),
        0 <= i < s.len(),
    ensures
        keys_distinct(s.remove(i)),
        entries_map(s.remove(i)) == entries_map(s).remove(s[i].0@),
{
    let t = s.remove(i);
    let idx = |j: int| if j < i { j } else { j + 1 };
    assert forall|a: int, b: int| 0 <= a < t.len() && 0 <= b < t.len() && a != b implies t[a].0@
        != t[b].0@ by {
        assert(t[a] == s[idx(a)]);
        assert(t[b] == s[idx(b)]);
    }
    let m = entries_map(t);
    let m2 = entries_map(s).remove(s[i].0@);
    assert forall|kk: K::V| #[trigger] m.contains_key(kk) <==> m2.contains_key(kk) by {
        if m.contains_key(kk) {
            let a = choose|a: int| key_at(t, kk, a);
            assert(t[a] == s[idx(a)]);
            assert(key_at(s, kk, idx(a)));
        }
        if m2.contains_key(kk) {
            let a = choose|a: int| key_at(s, kk, a);
            assert(a != i);
            let b = if a < i { a } else { a - 1 };
            assert(t[b] == s[a]);
            assert(key_at(t, kk, b));
        }
    }
    assert forall|kk: K::V| m.contains_key(kk) implies m[kk] == m2[kk] by {
        let a = choose|a: int| key_at(t, kk, a);
        lemma_entries_map_at(t, a);
        assert(t[a] == s[idx(a)]);
        lemma_entries_map_at(s, idx(a));
    }
    assert(m =~= m2);
}

/// Inserting an entry with a fresh key at position `i` inserts it into the
/// map.
pub proof fn lemma_entries_map_insert<K: View, V: View>(s: Seq<(K, V)>, i: int, k: K, v: V)
    requires
        keys_distinct(s),
        0 <= i <= s.len(),
        !entries_map(s).contains_key(k@),
    ensures
        keys_distinct(s.insert(i, (k, v))),
        entries_map(s.insert(i, (k, v))) == entries_map(s).insert(k@, v@),
{
    let t = s.insert(i, (k, v));
    let idx = |j: int| if j < i { j } else { j - 1 };
    assert forall|a: int| 0 <= a < t.len() && a != i implies t[a] == s[idx(a)] by {}
    assert forall|a: int, b: int| 0 <= a < t.len() && 0 <= b < t.len() && a != b implies t[a].0@
        != t[b].0@ by {
        if a == i {
            assert(!key_at(s, k@, idx(b)));
        } else if b == i {
            assert(!key_at(s, k@, idx(a)));
        }
    }
    let m = entries_map(t);
    let m2 = entries_map(s).insert(k@, v@);
    assert forall|kk: K::V| #[trigger] m.contains_key(kk) <==> m2.contains_key(kk) by {
        if m.contains_key(kk) {
            let a = choose|a: int| key_at(t, kk, a);
            if a != i {
                assert(key_at(s, kk, idx(a)));
            }
        }
        if m2.contains_key(kk) {
            if kk == k@ {
                assert(key_at(t, kk, i));
            } else {
                let a = choose|a: int| key_at(s, kk, a);
                let b = if a < i { a } else { a + 1 };
                assert(t[b] == s[a]);
                assert(key_at(t, kk, b));
            }
        }
    }
    assert forall|kk: K::V| m.contains_key(kk) implies m[kk] == m2[kk] by {
        let a = choose|a: int| key_at(t, kk, a);
        lemma_entries_map_at(t, a);
        if a != i {
            lemma_entries_map_at(s, idx(a));
        }
    }
    assert(m =~= m2);
}

/// Entries by their views.
pub open spec fn entries_view<K: View, V: View>(s: Seq<(K, V)>) -> Seq<(K::V, V::V)> {
    s.map_values(|e: (K, V)| (e.0@, e.1@))
}

/// A table of values by key, in insertion order; no key occurs twice.
pub struct KeyedMap<K: MapKey, V: View> {
    entries: Vec<(K, V)>,
}

impl<K: MapKey, V: View> View for KeyedMap<K, V> {
    type V = Map<K::V, V::V>;

    closed spec fn view(&self) -> Map<K::V, V::V> {
        entries_map(self.entries@)
    }
}

impl<K: MapKey, V: View> KeyedMap<K, V> {
    #[verifier::type_invariant]
    spec fn inv(self) -> bool {
        keys_distinct(self.entries@)
    }

    /// The entries in table order, by their views.
    pub closed spec fn ordered(&self) -> Seq<(K::V, V::V)> {
        entries_view(self.entries@)
    }

    /// An empty table.
    pub fn new() -> (r: Self)
        ensures
            r@ == Map::<K::V, V::V>::empty(),
            r.ordered() == Seq::<(K::V, V::V)>::empty(),
    {
        let r = KeyedMap { entries: Vec::new() };
        proof {
            assert(entries_map(r.entries@) =~= Map::<K::V, V::V>::empty());
            assert(r.ordered() =~= Seq::<(K::V, V::V)>::empty());
        }
        r
    }

    /// Position of the key's entry, if any.
    fn position(&self, key: &K) -> (r: Option<usize>)
        ensures
            match r {
                Some(i) => i < self.entries@.len() && self.entries@[i as int].0@ == key@,
                None => !self@.contains_key(key@),
            },
    {
        let mut i: usize = 0;
        while i < self.entries.len()
            invariant
                0 <= i <= self.entries@.len(),
                forall|j: int| 0 <= j < i ==> self.entries@[j].0@ != key@,
            decreases self.entries@.len() - i,
        {
            if self.entries[i].0.key_eq(key) {
                return Some(i);
            }
            i = i + 1;
        }
        None
    }

    /// Whether the key has an entry.
    pub fn contains_key(&self, key: &K) -> (r: bool)
        ensures
            r == self@.contains_key(key@),
    {
        proof {
            use_type_invariant(self);
        }
        match self.position(key) {
            Some(i) => {
                proof {
                    lemma_entries_map_at(self.entries@, i as int);
                }
                true
            },
            None => false,
        }
    }

    /// The value of the key, if it has one.
    pub fn get(&self, key: &K) -> (r: Option<&V>)
        ensures
            match r {
                Some(v) => self@.contains_key(key@) && self@[key@] == v@,
                None => !self@.contains_key(key@),
            },
    {
        proof {
            use_type_invariant(self);
        }
        match self.position(key) {
            Some(i) => {
                proof {
                    lemma_entries_map_at(self.entries@, i as int);
                }
                Some(&self.entries[i].1)
            },
            None => None,
        }
    }

    /// Adds an entry for a key that has none.
    pub fn insert_new(&mut self, key: K, value: V)
        requires
            !old(self)@.contains_key(key@),
        ensures
            final(self)@ == old(self)@.insert(key@, value@),
            final(self).ordered() == old(self).ordered().push((key@, value@)),
    {
        proof {
            use_type_invariant(&*self);
            lemma_entries_map_push(self.entries@, key, value);
        }
        let mut entries = Vec::new();
        std::mem::swap(&mut entries, &mut self.entries);
        entries.push((key, value));
        proof {
            assert(entries_view(entries@) =~= entries_view(old(self).entries@).push((key@, value@)));
        }
        self.entries = entries;
    }

    /// Sets the key's value: in its entry's place if it has one, in a new
    /// last entry otherwise.
    pub fn insert(&mut self, key: K, value: V)
        ensures
            final(self)@ == old(self)@.insert(key@, value@),
            !old(self)@.contains_key(key@) ==> final(self).ordered() == old(self).ordered().push((key@, value@)),
            old(self)@.contains_key(key@) ==> exists|i: int|
                0 <= i < old(self).ordered().len() && old(self).ordered()[i].0 == key@
                    && final(self).ordered() == old(self).ordered().update(i, (key@, value@)),
    {
        match self.take(&key) {
            Some((i, _k, _v)) => {
                let ghost mid = self.ordered();
                self.put_back(i, key, value);
                proof {
                    assert(old(self).ordered()[i as int].0 == key@);
                    assert(self.ordered() =~= old(self).ordered().update(i as int, (key@, value@)));
                    assert(self@ =~= old(self)@.insert(key@, value@));
                }
            },
            None => {
                self.insert_new(key, value);
            },
        }
    }

    /// Takes the key's entry out of the table, if it has one; the entry's
    /// position is handed back for `put_back`.
    pub fn take(&mut self, key: &K) -> (r: Option<(usize, K, V)>)
        ensures
            match r {
                Some((i, k, v)) => {
                    &&& old(self)@.contains_key(key@)
                    &&& k@ == key@
                    &&& v@ == old(self)@[key@]
                    &&& final(self)@ == old(self)@.remove(key@)
                    &&& i <= final(self).len()
                    &&& i < old(self).ordered().len()
                    &&& old(self).ordered()[i as int] == (k@, v@)
                    &&& final(self).ordered() == old(self).ordered().remove(i as int)
                },
                None => !old(self)@.contains_key(key@) && final(self)@ == old(self)@
                    && final(self).ordered() == old(self).ordered(),
            },
    {
        proof {
            use_type_invariant(&*self);
        }
        match self.position(key) {
            Some(i) => {
                proof {
                    lemma_entries_map_at(self.entries@, i as int);
                    lemma_entries_map_remove(self.entries@, i as int);
                }
                let mut entries = Vec::new();
                std::mem::swap(&mut entries, &mut self.entries);
                let (k, v) = entries.remove(i);
                proof {
                    assert(entries_view(entries@) =~= entries_view(old(self).entries@).remove(i as int));
                }
                self.entries = entries;
                Some((i, k, v))
            },
            None => None,
        }
    }

    /// Puts an entry back at a position, for a key that has none.
    pub fn put_back(&mut self, i: usize, key: K, value: V)
        requires
            !old(self)@.contains_key(key@),
            i <= old(self).len(),
        ensures
            final(self)@ == old(self)@.insert(key@, value@),
            final(self).ordered() == old(self).ordered().insert(i as int, (key@, value@)),
    {
        proof {
            use_type_invariant(&*self);
            lemma_entries_map_insert(self.entries@, i as int, key, value);
        }
        let mut entries = Vec::new();
        std::mem::swap(&mut entries, &mut self.entries);
        entries.insert(i, (key, value));
        proof {
            assert(entries_view(entries@) =~= entries_view(old(self).entries@).insert(i as int, (key@, value@)));
        }
        self.entries = entries;
    }

    /// Whether the table has no entry.
    pub fn is_empty(&self) -> (r: bool)
        ensures
            r == (self@ == Map::<K::V, V::V>::empty()),
    {
        proof {
            use_type_invariant(self);
        }
        if self.entries.len() == 0 {
            proof {
                assert(entries_map(self.entries@) =~= Map::<K::V, V::V>::empty());
            }
            true
        } else {
            proof {
                lemma_entries_map_at(self.entries@, 0);
            }
            false
        }
    }

    /// Number of entries.
    pub closed spec fn len(&self) -> nat {
        self.entries@.len()
    }

    /// The entries, each key once, in table order.
    pub fn into_entries(self) -> (r: Vec<(K, V)>)
        ensures
            keys_distinct(r@),
            entries_map(r@) == self@,
            entries_view(r@) == self.ordered(),
    {
        proof {
            use_type_invariant(&self);
        }
        self.entries
    }

    /// The entries, each key once, in table order, borrowed.
    pub fn entries(&self) -> (r: &Vec<(K, V)>)
        ensures
            keys_distinct(r@),
            entries_map(r@) == self@,
            entries_view(r@) == self.ordered(),
    {
        proof {
            use_type_invariant(self);
        }
        &self.entries
    }
}

} // verus!
