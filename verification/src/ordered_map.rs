//! A map with string keys that remembers the order in which keys were first
//! inserted.
use vstd::prelude::*;

use crate::text::str_eq;

verus! {

/// Entries in first-insertion order; each key occurs once.
#[derive(Debug)]
pub struct OrderedMap<V> {
    entries: Vec<(String, V)>,
}

/// The keys of an entry sequence, in order.
pub open spec fn keys_of<V>(s: Seq<(Seq<char>, V)>) -> Seq<Seq<char>> {
    s.map_values(|e: (Seq<char>, V)| e.0)
}

/// The character views of a sequence of strings.
pub open spec fn string_views(v: Seq<String>) -> Seq<Seq<char>> {
    v.map_values(|s: String| s@)
}

/// Position of `k` among the entries, if present.
pub open spec fn index_of_key<V>(s: Seq<(Seq<char>, V)>, k: Seq<char>) -> Option<int> {
    if exists|i: int| 0 <= i < s.len() && s[i].0 == k {
        Some(choose|i: int| 0 <= i < s.len() && s[i].0 == k)
    } else {
        None
    }
}

/// The value stored under `k`, if any.
pub open spec fn lookup<V>(s: Seq<(Seq<char>, V)>, k: Seq<char>) -> Option<V> {
    match index_of_key(s, k) {
        Some(i) => Some(s[i].1),
        None => None,
    }
}

/// Keys occur at most once.
pub open spec fn unique_keys<V>(s: Seq<(Seq<char>, V)>) -> bool {
    forall|i: int, j: int| 0 <= i < s.len() && 0 <= j < s.len() && s[i].0 == s[j].0 ==> i == j
}

/// The entries after inserting `v` under `k`: an existing key keeps its
/// position and gets the new value; a new key goes last.
pub open spec fn insert_spec<V>(s: Seq<(Seq<char>, V)>, k: Seq<char>, v: V) -> Seq<
    (Seq<char>, V),
> {
    match index_of_key(s, k) {
        Some(i) => s.update(i, (k, v)),
        None => s.push((k, v)),
    }
}

impl<V> View for OrderedMap<V> {
    type V = Seq<(Seq<char>, V)>;

    closed spec fn view(&self) -> Seq<(Seq<char>, V)> {
        self.entries@.map_values(|e: (String, V)| (e.0@, e.1))
    }
}

impl<V> OrderedMap<V> {
    #[verifier::type_invariant]
    closed spec fn keys_unique(&self) -> bool {
        unique_keys(self@)
    }

    pub fn new() -> (r: OrderedMap<V>)
        ensures
            r@ == Seq::<(Seq<char>, V)>::empty(),
    {
        let r = OrderedMap { entries: Vec::new() };
        assert(r@ =~= Seq::<(Seq<char>, V)>::empty());
        r
    }

    /// Number of keys; the keys are unique.
    pub fn len(&self) -> (n: usize)
        ensures
            n == self@.len(),
            unique_keys(self@),
    {
        proof {
            use_type_invariant(self);
        }
        self.entries.len()
    }

    fn position(&self, k: &str) -> (r: Option<usize>)
        ensures
            r matches Some(i) ==> index_of_key(self@, k@) == Some(i as int),
            r is None ==> index_of_key(self@, k@) is None,
    {
        proof {
            use_type_invariant(self);
        }
        let mut i: usize = 0;
        while i < self.entries.len()
            invariant
                i <= self@.len(),
                self@.len() == self.entries@.len(),
                unique_keys(self@),
                forall|j: int| 0 <= j < i ==> self@[j].0 != k@,
            decreases self.entries.len() - i,
        {
            assert(self@[i as int].0 == self.entries@[i as int].0@);
            if str_eq(self.entries[i].0.as_str(), k) {
                proof {
                    assert(self@[i as int].0 == k@);
                    let c = choose|j: int| 0 <= j < self@.len() && self@[j].0 == k@;
                    assert(self@[c].0 == self@[i as int].0);
                }
                return Some(i);
            }
            i = i + 1;
        }
        None
    }

    /// The value stored under `k`.
    pub fn get(&self, k: &str) -> (r: Option<&V>)
        ensures
            match lookup(self@, k@) {
                Some(v) => r == Some(&v),
                None => r is None,
            },
    {
        match self.position(k) {
            Some(i) => Some(&self.entries[i].1),
            None => None,
        }
    }

    pub fn contains_key(&self, k: &str) -> (r: bool)
        ensures
            r == (lookup(self@, k@) is Some),
    {
        self.position(k).is_some()
    }

    /// The keys, in the order in which they were first inserted.
    pub fn keys(&self) -> (r: Vec<String>)
        ensures
            string_views(r@) == keys_of(self@),
    {
        let mut r: Vec<String> = Vec::new();
        let mut i: usize = 0;
        while i < self.entries.len()
            invariant
                i <= self@.len(),
                self@.len() == self.entries@.len(),
                string_views(r@) == keys_of(self@.take(i as int)),
            decreases self.entries.len() - i,
        {
            let k = self.entries[i].0.clone();
            assert(k@ == self@[i as int].0);
            let ghost r0 = r@;
            r.push(k);
            assert(string_views(r@) =~= string_views(r0).push(self@[i as int].0));
            assert(keys_of(self@.take(i + 1)) =~= keys_of(self@.take(i as int)).push(
                self@[i as int].0,
            ));
            i = i + 1;
            assert(string_views(r@) =~= keys_of(self@.take(i as int)));
        }
        assert(self@.take(i as int) =~= self@);
        r
    }

    /// The entries, in key order.
    pub fn into_vec(self) -> (r: Vec<(String, V)>)
        ensures
            r@.map_values(|e: (String, V)| (e.0@, e.1)) == self@,
            unique_keys(self@),
    {
        proof {
            use_type_invariant(&self);
        }
        self.entries
    }

    /// Stores `v` under `k` and returns the value it replaces.
    pub fn insert(&mut self, k: String, v: V) -> (r: Option<V>)
        ensures
            final(self)@ == insert_spec(old(self)@, k@, v),
            r == lookup(old(self)@, k@),
            unique_keys(old(self)@),
    {
        proof {
            use_type_invariant(&*self);
        }
        let ghost old_view = self@;
        match self.position(k.as_str()) {
            Some(i) => {
                let ghost kv = k@;
                let mut entries: Vec<(String, V)> = Vec::new();
                std::mem::swap(&mut entries, &mut self.entries);
                let (_, old_v) = entries.remove(i);
                entries.insert(i, (k, v));
                let ghost nv = entries@.map_values(|e: (String, V)| (e.0@, e.1));
                assert(nv =~= old_view.update(i as int, (kv, v)));
                proof {
                    assert forall|a: int, b: int|
                        0 <= a < nv.len() && 0 <= b < nv.len() && nv[a].0 == nv[b].0 implies a
                        == b by {
                        assert(old_view[a].0 == nv[a].0);
                        assert(old_view[b].0 == nv[b].0);
                    }
                }
                self.entries = entries;
                assert(self@ =~= old_view.update(i as int, (kv, v)));
                proof {
                    assert forall|a: int, b: int|
                        0 <= a < self@.len() && 0 <= b < self@.len() && self@[a].0 == self@[
                            b
                        ].0 implies a == b by {
                        assert(old_view[a].0 == self@[a].0);
                        assert(old_view[b].0 == self@[b].0);
                    }
                }
                Some(old_v)
            },
            None => {
                let ghost kv = k@;
                let mut entries: Vec<(String, V)> = Vec::new();
                std::mem::swap(&mut entries, &mut self.entries);
                entries.push((k, v));
                let ghost nv = entries@.map_values(|e: (String, V)| (e.0@, e.1));
                assert(nv =~= old_view.push((kv, v)));
                proof {
                    assert forall|a: int, b: int|
                        0 <= a < nv.len() && 0 <= b < nv.len() && nv[a].0 == nv[b].0 implies a
                        == b by {
                        if a < old_view.len() && b < old_view.len() {
                        } else if a < old_view.len() {
                            assert(old_view[a].0 == kv);
                        } else if b < old_view.len() {
                            assert(old_view[b].0 == kv);
                        }
                    }
                }
                self.entries = entries;
                assert(self@ =~= old_view.push((kv, v)));
                proof {
                    assert forall|a: int, b: int|
                        0 <= a < self@.len() && 0 <= b < self@.len() && self@[a].0 == self@[
                            b
                        ].0 implies a == b by {
                        if a < old_view.len() && b < old_view.len() {
                        } else if a < old_view.len() {
                            assert(old_view[a].0 == kv);
                        } else if b < old_view.len() {
                            assert(old_view[b].0 == kv);
                        }
                    }
                }
                None
            },
        }
    }
}

/// In a sequence with unique keys, the value found for the key at position
/// `i` is the one stored there.
pub proof fn lemma_lookup_at<V>(s: Seq<(Seq<char>, V)>, i: int)
    requires
        unique_keys(s),
        0 <= i < s.len(),
    ensures
        lookup(s, s[i].0) == Some(s[i].1),
{
    let k = s[i].0;
    assert(s[i].0 == k);
    let j = choose|j: int| 0 <= j < s.len() && s[j].0 == k;
    assert(s[j].0 == s[i].0);
}

/// After `insert(k, v)`, `get(k)` gives `v`.
pub proof fn law_get_after_insert<V>(s: Seq<(Seq<char>, V)>, k: Seq<char>, v: V)
    requires
        unique_keys(s),
    ensures
        lookup(insert_spec(s, k, v), k) == Some(v),
{
    let t = insert_spec(s, k, v);
    match index_of_key(s, k) {
        Some(i) => {
            let j = choose|j: int| 0 <= j < t.len() && t[j].0 == k;
            assert(t[i].0 == k);
            if j != i {
                assert(s[j].0 == k);
                assert(s[i].0 == k);
            }
        },
        None => {
            assert(t[s.len() as int].0 == k);
            let j = choose|j: int| 0 <= j < t.len() && t[j].0 == k;
            if j < s.len() {
                assert(s[j].0 == k);
            }
        },
    }
}

/// Inserting under `k` leaves the value under every other key unchanged.
pub proof fn law_insert_keeps_others<V>(s: Seq<(Seq<char>, V)>, k: Seq<char>, v: V, other: Seq<
    char,
>)
    requires
        unique_keys(s),
        other != k,
    ensures
        lookup(insert_spec(s, k, v), other) == lookup(s, other),
{
    let t = insert_spec(s, k, v);
    assert forall|j: int| 0 <= j < s.len() implies (t[j].0 == other <==> s[j].0 == other) by {
        if let Some(i) = index_of_key(s, k) {
            if j == i {
                assert(s[i].0 == k);
            }
        }
    }
    if index_of_key(s, other) is Some {
        let a = choose|j: int| 0 <= j < s.len() && s[j].0 == other;
        assert(t[a].0 == other);
        let b = choose|j: int| 0 <= j < t.len() && t[j].0 == other;
        if b < s.len() {
            assert(s[b].0 == other);
        } else {
            assert(t[b].0 == k);
        }
        if let Some(i) = index_of_key(s, k) {
            assert(a != i) by {
                assert(s[i].0 == k);
            }
        }
    } else {
        if index_of_key(t, other) is Some {
            let b = choose|j: int| 0 <= j < t.len() && t[j].0 == other;
            if b < s.len() {
                assert(s[b].0 == other);
            } else {
                assert(t[b].0 == k);
            }
        }
    }
}

/// Keys keep the order of their first insertion: re-inserting a key does
/// not move it, and a new key is appended.
pub proof fn law_insert_key_order<V>(s: Seq<(Seq<char>, V)>, k: Seq<char>, v: V)
    requires
        unique_keys(s),
    ensures
        lookup(s, k) is Some ==> keys_of(insert_spec(s, k, v)) == keys_of(s),
        lookup(s, k) is None ==> keys_of(insert_spec(s, k, v)) == keys_of(s).push(k),
{
    match index_of_key(s, k) {
        Some(i) => {
            assert(s[i].0 == k);
            assert(keys_of(insert_spec(s, k, v)) =~= keys_of(s));
        },
        None => {
            assert(keys_of(insert_spec(s, k, v)) =~= keys_of(s).push(k));
        },
    }
}

/// Insertion keeps every key unique.
pub proof fn law_insert_unique<V>(s: Seq<(Seq<char>, V)>, k: Seq<char>, v: V)
    requires
        unique_keys(s),
    ensures
        unique_keys(insert_spec(s, k, v)),
{
    let t = insert_spec(s, k, v);
    match index_of_key(s, k) {
        Some(i) => {
            assert(s[i].0 == k);
            assert forall|a: int, b: int|
                0 <= a < t.len() && 0 <= b < t.len() && t[a].0 == t[b].0 implies a == b by {
                assert(t[a].0 == s[a].0);
                assert(t[b].0 == s[b].0);
            }
        },
        None => {
            assert forall|a: int, b: int|
                0 <= a < t.len() && 0 <= b < t.len() && t[a].0 == t[b].0 implies a == b by {
                if a < s.len() && b < s.len() {
                } else if a < s.len() {
                    assert(s[a].0 == k);
                } else if b < s.len() {
                    assert(s[b].0 == k);
                }
            }
        },
    }
}

} // verus!
