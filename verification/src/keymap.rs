//! A small map from key combinations to actions that keeps its entries in
//! the order in which their keys were first bound.
use vstd::prelude::*;

verus! {

/// A key type of `BindingMap`: one whose equality test is plain equality.
pub trait BindingKey: Sized + Copy {
    /// Whether `self` and `other` are the same key.
    fn same_key(&self, other: &Self) -> (b: bool)
        ensures
            b == (*self == *other),
    ;
}

/// A modifier mask and a keycode, as the X server reports a key press.
#[derive(Clone, Copy, Debug, PartialEq, Eq, Hash, Structural)]
pub struct KeyCombo {
    pub modifiers: u16,
    pub keycode: u8,
}

impl BindingKey for KeyCombo {
    fn same_key(&self, other: &Self) -> (b: bool) {
        self.modifiers == other.modifiers && self.keycode == other.keycode
    }
}

/// Whether no key occurs twice among `entries`.
pub open spec fn distinct_keys<K, V>(entries: Seq<(K, V)>) -> bool {
    forall|i: int, j: int|
        0 <= i < entries.len() && 0 <= j < entries.len() && i != j ==> #[trigger] entries[i].0
            != #[trigger] entries[j].0
}

/// Whether some entry has the key `k`.
pub open spec fn has_key<K, V>(entries: Seq<(K, V)>, k: K) -> bool {
    exists|i: int| 0 <= i < entries.len() && #[trigger] entries[i].0 == k
}

/// The position of an entry with the key `k`.
pub open spec fn key_index<K, V>(entries: Seq<(K, V)>, k: K) -> int {
    choose|i: int| 0 <= i < entries.len() && #[trigger] entries[i].0 == k
}

/// The map that `entries` stand for.
pub open spec fn entries_map<K, V>(entries: Seq<(K, V)>) -> Map<K, V> {
    Map::new(|k: K| has_key(entries, k), |k: K| entries[key_index(entries, k)].1)
}

/// Where no key repeats, an entry with the key `k` is the one that
/// `key_index` names.
pub proof fn lemma_key_index<K, V>(entries: Seq<(K, V)>, i: int)
    requires
        distinct_keys(entries),
        0 <= i < entries.len(),
    ensures
        has_key(entries, entries[i].0),
        key_index(entries, entries[i].0) == i,
        entries_map(entries).contains_key(entries[i].0),
        entries_map(entries)[entries[i].0] == entries[i].1,
{
    let k = entries[i].0;
    assert(entries[i].0 == k);
    let j = key_index(entries, k);
    assert(entries[j].0 == k);
}

/// A map from keys to values; its entries keep the order in which their
/// keys were first bound.
#[derive(Clone, Debug)]
pub struct BindingMap<K, V> {
    entries: Vec<(K, V)>,
}

impl<K: BindingKey, V> BindingMap<K, V> {
    /// The entries, in order.
    pub closed spec fn entries(&self) -> Seq<(K, V)> {
        self.entries@
    }

    /// The map the entries stand for.
    pub open spec fn view(&self) -> Map<K, V> {
        entries_map(self.entries())
    }

    /// No key occurs twice.
    pub open spec fn wf(&self) -> bool {
        distinct_keys(self.entries())
    }

    /// An empty map.
    pub fn new() -> (m: Self)
        ensures
            m.wf(),
            m.entries() == Seq::<(K, V)>::empty(),
            m@ == Map::<K, V>::empty(),
    {
        let m = BindingMap { entries: Vec::new() };
        assert(m@ =~= Map::<K, V>::empty());
        m
    }

    /// The number of bound keys.
    pub fn len(&self) -> (n: usize)
        ensures
            n == self.entries().len(),
    {
        self.entries.len()
    }

    /// The `i`-th entry.
    pub fn entry(&self, i: usize) -> (e: (&K, &V))
        requires
            i < self.entries().len(),
        ensures
            *e.0 == self.entries()[i as int].0,
            *e.1 == self.entries()[i as int].1,
    {
        let pair = &self.entries[i];
        (&pair.0, &pair.1)
    }

    /// The position of the entry whose key is `key`.
    fn find(&self, key: &K) -> (r: Option<usize>)
        requires
            self.wf(),
        ensures
            match r {
                Some(i) => i < self.entries().len() && self.entries()[i as int].0 == *key,
                None => !has_key(self.entries(), *key),
            },
    {
        let mut i: usize = 0;
        while i < self.entries.len()
            invariant
                i <= self.entries@.len(),
                forall|j: int| 0 <= j < i ==> #[trigger] self.entries@[j].0 != *key,
            decreases self.entries@.len() - i,
        {
            if self.entries[i].0.same_key(key) {
                return Some(i);
            }
            i = i + 1;
        }
        None
    }

    /// The value bound to `key`.
    pub fn get(&self, key: &K) -> (r: Option<&V>)
        requires
            self.wf(),
        ensures
            match r {
                Some(v) => self@.contains_key(*key) && self@[*key] == *v,
                None => !self@.contains_key(*key),
            },
    {
        match self.find(key) {
            Some(i) => {
                proof {
                    lemma_key_index(self.entries(), i as int);
                }
                Some(&self.entries[i].1)
            },
            None => None,
        }
    }

    /// Binds `key` to `value`. A key that was bound keeps its place and
    /// gets the new value; a new key goes at the end.
    pub fn insert(&mut self, key: K, value: V)
        requires
            old(self).wf(),
        ensures
            final(self).wf(),
            final(self)@ == old(self)@.insert(key, value),
            has_key(old(self).entries(), key) ==> final(self).entries() == old(self).entries().update(
                key_index(old(self).entries(), key),
                (key, value),
            ),
            !has_key(old(self).entries(), key) ==> final(self).entries() == old(self).entries().push(
                (key, value),
            ),
    {
        let ghost s = self.entries@;
        match self.find(&key) {
            Some(i) => {
                proof {
                    lemma_key_index(s, i as int);
                }
                let _ = self.entries.remove(i);
                self.entries.insert(i, (key, value));
                proof {
                    let t = self.entries@;
                    assert(t =~= s.update(i as int, (key, value)));
                    assert forall|a: int, b: int|
                        0 <= a < t.len() && 0 <= b < t.len() && a != b implies #[trigger] t[a].0
                        != #[trigger] t[b].0 by {
                        if a != i && b != i {
                            assert(s[a].0 != s[b].0);
                        } else if a == i {
                            assert(s[i as int].0 != s[b].0);
                        } else {
                            assert(s[i as int].0 != s[a].0);
                        }
                    }
                    self.lemma_view_after_update(s, i as int, key, value);
                }
            },
            None => {
                self.entries.push((key, value));
                proof {
                    let t = self.entries@;
                    assert(t =~= s.push((key, value)));
                    assert forall|a: int, b: int|
                        0 <= a < t.len() && 0 <= b < t.len() && a != b implies #[trigger] t[a].0
                        != #[trigger] t[b].0 by {
                        if a < s.len() && b < s.len() {
                            assert(s[a].0 != s[b].0);
                        } else if a == s.len() {
                            assert(s[b].0 == t[b].0);
                        } else {
                            assert(s[a].0 == t[a].0);
                        }
                    }
                    self.lemma_view_after_push(s, key, value);
                }
            },
        }
    }

    proof fn lemma_view_after_update(&self, s: Seq<(K, V)>, i: int, key: K, value: V)
        requires
            distinct_keys(s),
            distinct_keys(self.entries()),
            0 <= i < s.len(),
            s[i].0 == key,
            self.entries() == s.update(i, (key, value)),
        ensures
            self@ == entries_map(s).insert(key, value),
    {
        let t = self.entries();
        assert forall|k: K| #[trigger] has_key(t, k) == has_key(s, k) by {
            if has_key(s, k) {
                let j = key_index(s, k);
                assert(t[j].0 == k);
            }
            if has_key(t, k) {
                let j = key_index(t, k);
                assert(s[j].0 == k);
            }
        }
        assert forall|k: K| has_key(t, k) implies t[key_index(t, k)].1 == (if k == key {
            value
        } else {
            s[key_index(s, k)].1
        }) by {
            let j = key_index(t, k);
            lemma_key_index(t, j);
            if k == key {
                lemma_key_index(t, i);
            } else {
                assert(has_key(s, k));
                let js = key_index(s, k);
                lemma_key_index(s, js);
                assert(t[js].0 == k);
                lemma_key_index(t, js);
            }
        }
        lemma_key_index(s, i);
        assert(self@ =~= entries_map(s).insert(key, value));
    }

    proof fn lemma_view_after_push(&self, s: Seq<(K, V)>, key: K, value: V)
        requires
            distinct_keys(s),
            distinct_keys(self.entries()),
            !has_key(s, key),
            self.entries() == s.push((key, value)),
        ensures
            self@ == entries_map(s).insert(key, value),
    {
        let t = self.entries();
        let n = s.len() as int;
        assert(t[n].0 == key);
        assert forall|k: K| #[trigger] has_key(t, k) == (has_key(s, k) || k == key) by {
            if has_key(s, k) {
                let j = key_index(s, k);
                assert(t[j].0 == k);
            }
            if has_key(t, k) && k != key {
                let j = key_index(t, k);
                assert(j != n);
                assert(s[j].0 == k);
            }
        }
        assert forall|k: K| has_key(t, k) implies t[key_index(t, k)].1 == (if k == key {
            value
        } else {
            s[key_index(s, k)].1
        }) by {
            let j = key_index(t, k);
            lemma_key_index(t, j);
            if k == key {
                lemma_key_index(t, n);
            } else {
                let js = key_index(s, k);
                lemma_key_index(s, js);
                assert(t[js].0 == k);
                lemma_key_index(t, js);
            }
        }
        assert(self@ =~= entries_map(s).insert(key, value));
    }
}

/// What is read under a key is what was last written under it, and writing
/// under one key leaves every other key as it was.
pub proof fn lemma_read_after_write<K: BindingKey, V>(
    before: BindingMap<K, V>,
    after: BindingMap<K, V>,
    key: K,
    value: V,
    other: K,
)
    requires
        after@ == before@.insert(key, value),
        other != key,
    ensures
        after@.contains_key(key),
        after@[key] == value,
        after@.contains_key(other) == before@.contains_key(other),
        before@.contains_key(other) ==> after@[other] == before@[other],
{
}

} // verus!
