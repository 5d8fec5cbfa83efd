//! A map from text keys to values, with unique keys, as the game state uses
//! it (save data, session state and per-script state).
use vstd::prelude::*;
use vstd::relations::injective_on;
use vstd::set_lib::{lemma_int_range, lemma_map_size, set_int_range};

verus! {

/// Key/value pairs with pairwise different keys, viewed as a map from the
/// keys' text to the values.
#[derive(Debug)]
pub struct KeyedStore<V> {
    entries: Vec<(String, V)>,
}

pub open spec fn keys_unique<V>(s: Seq<(String, V)>) -> bool {
    forall|i: int, j: int|
        0 <= i < s.len() && 0 <= j < s.len() && #[trigger] s[i].0@ == #[trigger] s[j].0@ ==> i == j
}

pub open spec fn has_key<V>(s: Seq<(String, V)>, k: Seq<char>) -> bool {
    exists|i: int| 0 <= i < s.len() && #[trigger] s[i].0@ == k
}

pub open spec fn map_of<V>(s: Seq<(String, V)>) -> Map<Seq<char>, V> {
    Map::new(
        |k: Seq<char>| has_key(s, k),
        |k: Seq<char>| s[choose|i: int| 0 <= i < s.len() && #[trigger] s[i].0@ == k].1,
    )
}

proof fn lemma_map_of_at<V>(s: Seq<(String, V)>, i: int)
    requires
        keys_unique(s),
        0 <= i < s.len(),
    ensures
        map_of(s).dom().contains(s[i].0@),
        map_of(s)[s[i].0@] == s[i].1,
{
    let k = s[i].0@;
    assert(has_key(s, k));
    let j = choose|j: int| 0 <= j < s.len() && #[trigger] s[j].0@ == k;
    assert(s[j].0@ == s[i].0@);
}

proof fn lemma_dom_size<V>(s: Seq<(String, V)>)
    requires
        keys_unique(s),
    ensures
        map_of(s).dom().finite(),
        map_of(s).dom().len() == s.len(),
{
    let x = set_int_range(0, s.len() as int);
    let f = |i: int| s[i].0@;
    lemma_int_range(0, s.len() as int);
    assert(injective_on(f, x));
    assert forall|k: Seq<char>| #[trigger] x.map(f).contains(k) == map_of(s).dom().contains(k) by {
        if map_of(s).dom().contains(k) {
            let i = choose|i: int| 0 <= i < s.len() && #[trigger] s[i].0@ == k;
            assert(x.contains(i) && k == f(i));
        }
        if x.map(f).contains(k) {
            let i = choose|i: int| x.contains(i) && k == f(i);
            assert(s[i].0@ == k);
        }
    }
    assert(x.map(f) =~= map_of(s).dom());
    lemma_map_size(x, map_of(s).dom(), f);
}

impl<V> View for KeyedStore<V> {
    type V = Map<Seq<char>, V>;

    closed spec fn view(&self) -> Map<Seq<char>, V> {
        map_of(self.entries@)
    }
}

impl<V> KeyedStore<V> {
    /// No key occurs twice.
    pub closed spec fn wf(&self) -> bool {
        keys_unique(self.entries@)
    }

    pub closed spec fn pairs(&self) -> Seq<(String, V)> {
        self.entries@
    }

    /// An empty store.
    pub fn new() -> (r: Self)
        ensures
            r.wf(),
            r@ == Map::<Seq<char>, V>::empty(),
    {
        let r = KeyedStore { entries: Vec::new() };
        assert(r@ =~= Map::<Seq<char>, V>::empty());
        r
    }

    fn find(&self, key: &String) -> (r: Option<usize>)
        requires
            self.wf(),
        ensures
            match r {
                Some(i) => i < self.entries@.len() && self.entries@[i as int].0@ == key@,
                None => !has_key(self.entries@, key@),
            },
    {
        let mut i: usize = 0;
        while i < self.entries.len()
            invariant
                i <= self.entries@.len(),
                forall|j: int| 0 <= j < i ==> #[trigger] self.entries@[j].0@ != key@,
            decreases self.entries@.len() - i,
        {
            if self.entries[i].0 == *key {
                return Some(i);
            }
            i += 1;
        }
        None
    }

    /// The value stored under `key`.
    pub fn get(&self, key: &str) -> (r: Option<&V>)
        requires
            self.wf(),
        ensures
            r == (if self@.dom().contains(key@) {
                Some(&self@[key@])
            } else {
                None
            }),
    {
        let k = String::from_str(key);
        match self.find(&k) {
            Some(i) => {
                proof {
                    lemma_map_of_at(self.entries@, i as int);
                }
                Some(&self.entries[i].1)
            },
            None => None,
        }
    }

    /// Whether a value is stored under `key`.
    pub fn contains_key(&self, key: &str) -> (r: bool)
        requires
            self.wf(),
        ensures
            r == self@.dom().contains(key@),
    {
        let k = String::from_str(key);
        match self.find(&k) {
            Some(i) => {
                proof {
                    lemma_map_of_at(self.entries@, i as int);
                }
                true
            },
            None => false,
        }
    }

    /// Whether nothing is stored.
    pub fn is_empty(&self) -> (r: bool)
        requires
            self.wf(),
        ensures
            r == (self@ == Map::<Seq<char>, V>::empty()),
    {
        if self.entries.len() == 0 {
            assert(self@ =~= Map::<Seq<char>, V>::empty());
            true
        } else {
            proof {
                lemma_map_of_at(self.entries@, 0);
                assert(!(self@ =~= Map::<Seq<char>, V>::empty()));
            }
            false
        }
    }

    /// Stores `value` under `key`, replacing what was stored there.
    pub fn insert(&mut self, key: String, value: V)
        requires
            old(self).wf(),
        ensures
            final(self).wf(),
            final(self)@ == old(self)@.insert(key@, value),
    {
        let ghost k = key@;
        let ghost v = value;
        match self.find(&key) {
            Some(i) => {
                self.entries.set(i, (key, value));
                proof {
                    let s = self.entries@;
                    let o = old(self).entries@;
                    assert(keys_unique(s));
                    assert forall|q: Seq<char>| #[trigger] has_key(s, q) == has_key(o, q) || q
                        == k by {
                        if has_key(s, q) {
                            let j = choose|j: int| 0 <= j < s.len() && #[trigger] s[j].0@ == q;
                            if j != i {
                                assert(o[j].0@ == q);
                            }
                        }
                        if has_key(o, q) {
                            let j = choose|j: int| 0 <= j < o.len() && #[trigger] o[j].0@ == q;
                            assert(s[j].0@ == o[j].0@ || j == i);
                        }
                    }
                    assert forall|q: Seq<char>| q != k && #[trigger] has_key(o, q) implies has_key(
                        s,
                        q,
                    ) && map_of(s)[q] == map_of(o)[q] by {
                        let j = choose|j: int| 0 <= j < o.len() && #[trigger] o[j].0@ == q;
                        assert(j != i);
                        assert(s[j] == o[j]);
                        lemma_map_of_at(s, j);
                        lemma_map_of_at(o, j);
                    }
                    lemma_map_of_at(s, i as int);
                    assert(self@ =~= old(self)@.insert(k, v));
                }
            },
            None => {
                self.entries.push((key, value));
                proof {
                    let s = self.entries@;
                    let o = old(self).entries@;
                    let n = o.len() as int;
                    assert forall|a: int, b: int|
                        0 <= a < s.len() && 0 <= b < s.len() && #[trigger] s[a].0@
                            == #[trigger] s[b].0@ implies a == b by {
                        if a < n && b == n {
                            assert(o[a].0@ == k);
                        }
                        if b < n && a == n {
                            assert(o[b].0@ == k);
                        }
                    }
                    assert forall|q: Seq<char>| #[trigger] has_key(o, q) implies has_key(s, q)
                        && map_of(s)[q] == map_of(o)[q] by {
                        let j = choose|j: int| 0 <= j < o.len() && #[trigger] o[j].0@ == q;
                        assert(s[j] == o[j]);
                        lemma_map_of_at(s, j);
                        lemma_map_of_at(o, j);
                    }
                    assert forall|q: Seq<char>| #[trigger] has_key(s, q) implies has_key(o, q) || q
                        == k by {
                        let j = choose|j: int| 0 <= j < s.len() && #[trigger] s[j].0@ == q;
                        if j < n {
                            assert(o[j].0@ == q);
                        }
                    }
                    lemma_map_of_at(s, n);
                    assert(self@ =~= old(self)@.insert(k, v));
                }
            },
        }
    }

    /// Takes out the value stored under `key`.
    pub fn remove(&mut self, key: &str) -> (r: Option<V>)
        requires
            old(self).wf(),
        ensures
            final(self).wf(),
            final(self)@ == old(self)@.remove(key@),
            r == (if old(self)@.dom().contains(key@) {
                Some(old(self)@[key@])
            } else {
                None
            }),
    {
        let k = String::from_str(key);
        match self.find(&k) {
            Some(i) => {
                proof {
                    lemma_map_of_at(self.entries@, i as int);
                }
                let (_, v) = self.entries.remove(i);
                proof {
                    let s = self.entries@;
                    let o = old(self).entries@;
                    assert(s =~= o.remove(i as int));
                    assert forall|a: int, b: int|
                        0 <= a < s.len() && 0 <= b < s.len() && #[trigger] s[a].0@
                            == #[trigger] s[b].0@ implies a == b by {
                        let a2 = if a < i { a } else { a + 1 };
                        let b2 = if b < i { b } else { b + 1 };
                        assert(s[a] == o[a2]);
                        assert(s[b] == o[b2]);
                    }
                    assert forall|q: Seq<char>| #[trigger] has_key(s, q) implies has_key(o, q) && q
                        != key@ && map_of(s)[q] == map_of(o)[q] by {
                        let j = choose|j: int| 0 <= j < s.len() && #[trigger] s[j].0@ == q;
                        let j2 = if j < i { j } else { j + 1 };
                        assert(s[j] == o[j2]);
                        lemma_map_of_at(s, j);
                        lemma_map_of_at(o, j2);
                    }
                    assert forall|q: Seq<char>| q != key@ && #[trigger] has_key(o, q) implies has_key(
                        s,
                        q,
                    ) by {
                        let j = choose|j: int| 0 <= j < o.len() && #[trigger] o[j].0@ == q;
                        assert(j != i);
                        let j2 = if j < i { j } else { j - 1 };
                        assert(s[j2] == o[j]);
                    }
                    assert(self@ =~= old(self)@.remove(key@));
                }
                Some(v)
            },
            None => {
                assert(self@ =~= old(self)@.remove(key@));
                None
            },
        }
    }

    /// How many keys are stored.
    pub fn len(&self) -> (r: usize)
        requires
            self.wf(),
        ensures
            self@.dom().finite(),
            r == self@.dom().len(),
    {
        proof {
            lemma_dom_size(self.entries@);
        }
        self.entries.len()
    }

    /// One of the stored keys, or `None` when the store is empty.
    pub fn any_key(&self) -> (r: Option<String>)
        requires
            self.wf(),
        ensures
            r is None <==> self@.dom() == Set::<Seq<char>>::empty(),
            r matches Some(k) ==> self@.dom().contains(k@),
    {
        if self.entries.len() == 0 {
            assert(self@.dom() =~= Set::<Seq<char>>::empty());
            None
        } else {
            proof {
                lemma_map_of_at(self.entries@, 0);
            }
            Some(self.entries[0].0.clone())
        }
    }

    /// Replaces each stored value by what `f` makes of it; `rel` relates
    /// each old value to the new one.
    pub(crate) fn update_values<F: Fn(&V) -> V>(&mut self, f: F, Ghost(rel): Ghost<spec_fn(V, V) -> bool>)
        requires
            old(self).wf(),
            forall|v: &V| #[trigger] f.requires((v,)),
            forall|v: &V, r: V| f.ensures((v,), r) ==> rel(*v, r),
        ensures
            final(self).wf(),
            final(self)@.dom() == old(self)@.dom(),
            forall|k: Seq<char>| #[trigger] old(self)@.dom().contains(k) ==> rel(old(self)@[k], final(self)@[k]),
    {
        let n = self.entries.len();
        let mut out: Vec<(String, V)> = Vec::new();
        let mut i: usize = 0;
        while i < n
            invariant
                i <= n,
                n == self.entries@.len(),
                self.entries@ == old(self).entries@,
                forall|v: &V| #[trigger] f.requires((v,)),
                forall|v: &V, r: V| f.ensures((v,), r) ==> rel(*v, r),
                out@.len() == i,
                forall|j: int| 0 <= j < i ==> #[trigger] out@[j].0@ == self.entries@[j].0@ && rel(
                    self.entries@[j].1,
                    out@[j].1,
                ),
            decreases n - i,
        {
            let k = self.entries[i].0.clone();
            let v = f(&self.entries[i].1);
            out.push((k, v));
            i += 1;
        }
        let ghost o = old(self).entries@;
        self.entries = out;
        proof {
            let s = self.entries@;
            assert forall|q: Seq<char>| #[trigger] has_key(s, q) == has_key(o, q) by {
                if has_key(s, q) {
                    let j = choose|j: int| 0 <= j < s.len() && #[trigger] s[j].0@ == q;
                    assert(o[j].0@ == q);
                }
                if has_key(o, q) {
                    let j = choose|j: int| 0 <= j < o.len() && #[trigger] o[j].0@ == q;
                    assert(s[j].0@ == q);
                }
            }
            assert forall|a: int, b: int|
                0 <= a < s.len() && 0 <= b < s.len() && #[trigger] s[a].0@ == #[trigger] s[b].0@ implies a
                == b by {
                assert(o[a].0@ == s[a].0@ && o[b].0@ == s[b].0@);
            }
            assert(self@.dom() =~= old(self)@.dom());
            assert forall|k: Seq<char>| #[trigger] old(self)@.dom().contains(k) implies rel(
                old(self)@[k],
                self@[k],
            ) by {
                let j = choose|j: int| 0 <= j < o.len() && #[trigger] o[j].0@ == k;
                lemma_map_of_at(o, j);
                lemma_map_of_at(s, j);
            }
        }
    }

    /// Removes everything.
    pub fn clear(&mut self)
        ensures
            final(self).wf(),
            final(self)@ == Map::<Seq<char>, V>::empty(),
    {
        self.entries.clear();
        assert(self@ =~= Map::<Seq<char>, V>::empty());
    }

    /// The stored pairs, in no particular order.
    pub fn entries(&self) -> (r: &Vec<(String, V)>)
        requires
            self.wf(),
        ensures
            keys_unique(r@),
            r@.len() == self@.dom().len(),
            forall|i: int| 0 <= i < r@.len() ==> #[trigger] self@.dom().contains(r@[i].0@)
                && self@[r@[i].0@] == r@[i].1,
            forall|k: Seq<char>| #[trigger] self@.dom().contains(k) ==> has_key(r@, k),
    {
        proof {
            lemma_dom_size(self.entries@);
            assert forall|i: int| 0 <= i < self.entries@.len() implies #[trigger] self@.dom().contains(
                self.entries@[i].0@,
            ) && self@[self.entries@[i].0@] == self.entries@[i].1 by {
                lemma_map_of_at(self.entries@, i);
            }
        }
        &self.entries
    }
}

} // verus!
