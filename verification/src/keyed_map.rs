//! A small map keyed by strings, kept as a list of unique keys.
use vstd::prelude::*;
use crate::text::str_eq;

verus! {

/// True when no two entries share a key.
pub open spec fn keys_unique<V>(s: Seq<(String, V)>) -> bool {
    forall|i: int, j: int| 0 <= i < s.len() && 0 <= j < s.len() && i != j ==> s[i].0@ != s[j].0@
}

pub open spec fn has_key_at<V>(s: Seq<(String, V)>, k: Seq<char>, i: int) -> bool {
    0 <= i < s.len() && s[i].0@ == k
}

/// The map that a list of (key, value) entries stands for.
pub open spec fn entries_map<V>(s: Seq<(String, V)>) -> Map<Seq<char>, V> {
    Map::new(
        |k: Seq<char>| exists|i: int| has_key_at(s, k, i),
        |k: Seq<char>| s[choose|i: int| has_key_at(s, k, i)].1,
    )
}

/// A map keyed by strings, such as profile names to background data URLs.
pub struct KeyedMap<V> {
    entries: Vec<(String, V)>,
}

impl<V> View for KeyedMap<V> {
    type V = Map<Seq<char>, V>;

    closed spec fn view(&self) -> Map<Seq<char>, V> {
        entries_map(self.entries@)
    }
}

proof fn lemma_value_at<V>(s: Seq<(String, V)>, i: int)
    requires
        keys_unique(s),
        0 <= i < s.len(),
    ensures
        entries_map(s).dom().contains(s[i].0@),
        entries_map(s)[s[i].0@] == s[i].1,
{
    assert(has_key_at(s, s[i].0@, i));
}

/// Index of the entry whose key is `key`, if any.
fn position_in<V>(entries: &Vec<(String, V)>, key: &str) -> (r: Option<usize>)
    ensures
        match r {
            Some(i) => i < entries@.len() && entries@[i as int].0@ == key@,
            None => forall|i: int| 0 <= i < entries@.len() ==> entries@[i].0@ != key@,
        },
{
    let mut i: usize = 0;
    while i < entries.len()
        invariant
            i <= entries@.len(),
            forall|j: int| 0 <= j < i ==> entries@[j].0@ != key@,
        decreases entries@.len() - i,
    {
        if str_eq(entries[i].0.as_str(), key) {
            return Some(i);
        }
        i = i + 1;
    }
    None
}

/// Writing an entry for `k` at index `i`, over the old entry for `k` or after the
/// last entry when there was none, gives the old map with `k` mapped to `v`.
proof fn lemma_entries_insert<V>(old_s: Seq<(String, V)>, s: Seq<(String, V)>, k: Seq<char>, v: V, i: int)
    requires
        keys_unique(old_s),
        0 <= i <= old_s.len(),
        i < old_s.len() ==> old_s[i].0@ == k && s == old_s.update(i, s[i]),
        i == old_s.len() ==> (forall|j: int| 0 <= j < old_s.len() ==> old_s[j].0@ != k) && s == old_s.push(s[i]),
        s[i].0@ == k,
        s[i].1 == v,
    ensures
        keys_unique(s),
        entries_map(s) == entries_map(old_s).insert(k, v),
{
    lemma_value_at(s, i);
    assert forall|kk: Seq<char>| #[trigger] entries_map(s).dom().contains(kk)
        == entries_map(old_s).insert(k, v).dom().contains(kk) by {
        if kk != k {
            if exists|j: int| has_key_at(old_s, kk, j) {
                let j = choose|j: int| has_key_at(old_s, kk, j);
                assert(has_key_at(s, kk, j));
            }
            if exists|j: int| has_key_at(s, kk, j) {
                let j = choose|j: int| has_key_at(s, kk, j);
                assert(has_key_at(old_s, kk, j));
            }
        } else {
            assert(has_key_at(s, kk, i));
        }
    }
    assert forall|kk: Seq<char>| #[trigger] entries_map(s).dom().contains(kk) implies entries_map(s)[kk]
        == entries_map(old_s).insert(k, v)[kk] by {
        let j = choose|j: int| has_key_at(s, kk, j);
        lemma_value_at(s, j);
        if kk != k {
            assert(has_key_at(old_s, kk, j));
            lemma_value_at(old_s, j);
        }
    }
    assert(entries_map(s) =~= entries_map(old_s).insert(k, v));
}

/// Dropping the entry at index `i` drops its key from the map and nothing else.
proof fn lemma_entries_remove<V>(old_s: Seq<(String, V)>, i: int)
    requires
        keys_unique(old_s),
        0 <= i < old_s.len(),
    ensures
        keys_unique(old_s.remove(i)),
        entries_map(old_s.remove(i)) == entries_map(old_s).remove(old_s[i].0@),
{
    let s = old_s.remove(i);
    let k = old_s[i].0@;
    assert forall|kk: Seq<char>| #[trigger] entries_map(s).dom().contains(kk)
        == entries_map(old_s).remove(k).dom().contains(kk) by {
        if exists|j: int| has_key_at(old_s, kk, j) {
            let j = choose|j: int| has_key_at(old_s, kk, j);
            if kk != k {
                if j < i {
                    assert(has_key_at(s, kk, j));
                } else {
                    assert(has_key_at(s, kk, j - 1));
                }
            }
        }
        if exists|j: int| has_key_at(s, kk, j) {
            let j = choose|j: int| has_key_at(s, kk, j);
            if j < i {
                assert(has_key_at(old_s, kk, j));
            } else {
                assert(has_key_at(old_s, kk, j + 1));
            }
        }
    }
    assert forall|kk: Seq<char>| #[trigger] entries_map(s).dom().contains(kk) implies entries_map(s)[kk]
        == entries_map(old_s).remove(k)[kk] by {
        let j = choose|j: int| has_key_at(s, kk, j);
        lemma_value_at(s, j);
        if j < i {
            assert(has_key_at(old_s, kk, j));
            lemma_value_at(old_s, j);
        } else {
            assert(has_key_at(old_s, kk, j + 1));
            lemma_value_at(old_s, j + 1);
        }
    }
    assert(entries_map(s) =~= entries_map(old_s).remove(k));
}

impl<V> KeyedMap<V> {
    #[verifier::type_invariant]
    closed spec fn inv(self) -> bool {
        keys_unique(self.entries@)
    }

    /// The empty map.
    pub fn new() -> (r: Self)
        ensures
            r@ == Map::<Seq<char>, V>::empty(),
    {
        let r = KeyedMap { entries: Vec::new() };
        assert(r@ =~= Map::<Seq<char>, V>::empty());
        r
    }

    fn position(&self, key: &str) -> (r: Option<usize>)
        ensures
            match r {
                Some(i) => i < self.entries@.len() && self.entries@[i as int].0@ == key@,
                None => forall|i: int| 0 <= i < self.entries@.len() ==> self.entries@[i].0@ != key@,
            },
    {
        position_in(&self.entries, key)
    }

    /// The value stored under `key`, if any.
    pub fn get(&self, key: &str) -> (r: Option<&V>)
        ensures
            r is Some <==> self@.dom().contains(key@),
            r is Some ==> *r->0 == self@[key@],
    {
        proof {
            use_type_invariant(self);
        }
        match self.position(key) {
            Some(i) => {
                proof {
                    lemma_value_at(self.entries@, i as int);
                }
                Some(&self.entries[i].1)
            },
            None => None,
        }
    }

    /// True when a value is stored under `key`.
    pub fn contains_key(&self, key: &str) -> (r: bool)
        ensures
            r == self@.dom().contains(key@),
    {
        self.get(key).is_some()
    }

    /// Stores `value` under `key`, replacing any value it had.
    pub fn insert(&mut self, key: String, value: V)
        ensures
            final(self)@ == old(self)@.insert(key@, value),
    {
        proof {
            use_type_invariant(&*self);
        }
        let ghost old_s = self.entries@;
        let ghost k = key@;
        let mut entries: Vec<(String, V)> = Vec::new();
        std::mem::swap(&mut entries, &mut self.entries);
        let ghost i: int;
        match position_in(&entries, key.as_str()) {
            Some(j) => {
                entries[j] = (key, value);
                proof {
                    i = j as int;
                }
            },
            None => {
                entries.push((key, value));
                proof {
                    i = old_s.len() as int;
                }
            },
        }
        proof {
            lemma_entries_insert(old_s, entries@, k, value, i);
        }
        self.entries = entries;
    }

    /// Removes the value stored under `key`, if any.
    pub fn remove(&mut self, key: &str)
        ensures
            final(self)@ == old(self)@.remove(key@),
    {
        let _ = self.take(key);
    }

    /// Removes the value stored under `key` and hands it back, if there was one.
    pub fn take(&mut self, key: &str) -> (r: Option<V>)
        ensures
            r == (if old(self)@.dom().contains(key@) { Some(old(self)@[key@]) } else { None::<V> }),
            final(self)@ == old(self)@.remove(key@),
    {
        proof {
            use_type_invariant(&*self);
        }
        let ghost old_s = self.entries@;
        let ghost k = key@;
        match self.position(key) {
            Some(i) => {
                let mut entries: Vec<(String, V)> = Vec::new();
                std::mem::swap(&mut entries, &mut self.entries);
                let (_, value) = entries.remove(i);
                proof {
                    lemma_value_at(old_s, i as int);
                    lemma_entries_remove(old_s, i as int);
                }
                self.entries = entries;
                Some(value)
            },
            None => {
                proof {
                    assert(!entries_map(old_s).dom().contains(k));
                    assert(entries_map(old_s) =~= entries_map(old_s).remove(k));
                }
                None
            },
        }
    }
}

impl<V> KeyedMap<V> {
    /// All entries, one per key, in no particular order; the map is used up.
    pub fn into_vec(self) -> (r: Vec<(String, V)>)
        ensures
            keys_unique(r@),
            entries_map(r@) == self@,
    {
        proof {
            use_type_invariant(&self);
        }
        self.entries
    }
}

impl KeyedMap<String> {
    /// All entries, one per key, in no particular order.
    pub fn to_vec(&self) -> (r: Vec<(String, String)>)
        ensures
            keys_unique(r@),
            entries_map(r@) == self@,
    {
        proof {
            use_type_invariant(self);
        }
        let mut r: Vec<(String, String)> = Vec::new();
        let mut i: usize = 0;
        while i < self.entries.len()
            invariant
                i <= self.entries@.len(),
                r@.len() == i,
                forall|j: int| 0 <= j < i ==> #[trigger] r@[j].0@ == self.entries@[j].0@ && r@[j].1
                    == self.entries@[j].1,
            decreases self.entries@.len() - i,
        {
            let k = self.entries[i].0.clone();
            let v = self.entries[i].1.clone();
            r.push((k, v));
            i = i + 1;
        }
        proof {
            let s = self.entries@;
            assert forall|kk: Seq<char>| #[trigger] entries_map(r@).dom().contains(kk) == entries_map(s).dom().contains(kk) by {
                if exists|j: int| has_key_at(s, kk, j) {
                    let j = choose|j: int| has_key_at(s, kk, j);
                    assert(has_key_at(r@, kk, j));
                }
                if exists|j: int| has_key_at(r@, kk, j) {
                    let j = choose|j: int| has_key_at(r@, kk, j);
                    assert(has_key_at(s, kk, j));
                }
            }
            assert forall|kk: Seq<char>| #[trigger] entries_map(r@).dom().contains(kk) implies entries_map(r@)[kk] == entries_map(s)[kk] by {
                let j = choose|j: int| has_key_at(r@, kk, j);
                lemma_value_at(r@, j);
                assert(has_key_at(s, kk, j));
                lemma_value_at(s, j);
            }
            assert(entries_map(r@) =~= entries_map(s));
        }
        r
    }
}

} // verus!
