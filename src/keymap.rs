//! A string-keyed map kept as a vector of entries with distinct keys.
use vstd::prelude::*;

verus! {

/// A map from string keys to values; it is seen as a `Map` from the keys' characters.
pub struct KeyMap<V> {
    entries: Vec<(String, V)>,
    model: Ghost<Map<Seq<char>, V>>,
}

impl<V> View for KeyMap<V> {
    type V = Map<Seq<char>, V>;

    closed spec fn view(&self) -> Map<Seq<char>, V> {
        self.model@
    }
}

/// The entries have distinct keys and hold exactly the map `m`.
spec fn well_kept<V>(entries: Seq<(String, V)>, m: Map<Seq<char>, V>) -> bool {
    &&& m.dom().finite()
    &&& forall|i: int, j: int|
        0 <= i < j < entries.len() ==> #[trigger] entries[i].0@ != #[trigger] entries[j].0@
    &&& forall|i: int|
        0 <= i < entries.len() ==> {
            &&& m.contains_key(#[trigger] entries[i].0@)
            &&& m[entries[i].0@] == entries[i].1
        }
    &&& forall|k: Seq<char>|
        #[trigger] m.contains_key(k) ==> exists|i: int|
            0 <= i < entries.len() && #[trigger] entries[i].0@ == k
}

impl<V> KeyMap<V> {
    #[verifier::type_invariant]
    closed spec fn inv(self) -> bool {
        well_kept(self.entries@, self.model@)
    }

    /// An empty map.
    pub fn new() -> (r: Self)
        ensures
            r@ == Map::<Seq<char>, V>::empty(),
    {
        KeyMap { entries: Vec::new(), model: Ghost(Map::empty()) }
    }

    /// The position of `k` among the entries, if it is present.
    fn find(&self, k: &String) -> (r: Option<usize>)
        ensures
            match r {
                Some(i) => i < self.entries@.len() && self.entries@[i as int].0@ == k@,
                None => !self@.contains_key(k@),
            },
    {
        proof {
            use_type_invariant(self);
        }
        let mut i: usize = 0;
        while i < self.entries.len()
            invariant
                i <= self.entries@.len(),
                forall|j: int| 0 <= j < i ==> self.entries@[j].0@ != k@,
            decreases self.entries@.len() - i,
        {
            if self.entries[i].0 == *k {
                return Some(i);
            }
            i = i + 1;
        }
        None
    }

    /// Whether `k` is present.
    pub fn contains_key(&self, k: &String) -> (r: bool)
        ensures
            r == self@.contains_key(k@),
    {
        proof {
            use_type_invariant(self);
        }
        self.find(k).is_some()
    }

    /// The value under `k`, if any.
    pub fn get(&self, k: &String) -> (r: Option<&V>)
        ensures
            match r {
                Some(v) => self@.contains_key(k@) && *v == self@[k@],
                None => !self@.contains_key(k@),
            },
    {
        proof {
            use_type_invariant(self);
        }
        match self.find(k) {
            Some(i) => Some(&self.entries[i].1),
            None => None,
        }
    }

    /// Takes the value under `k` out of the map.
    pub fn remove(&mut self, k: &String) -> (r: Option<V>)
        ensures
            final(self)@ == old(self)@.remove(k@),
            match r {
                Some(v) => old(self)@.contains_key(k@) && v == old(self)@[k@],
                None => !old(self)@.contains_key(k@),
            },
    {
        proof {
            use_type_invariant(&*self);
        }
        match self.find(k) {
            None => {
                assert(self@.remove(k@) =~= self@);
                None
            },
            Some(i) => {
                let mut whole = KeyMap::new();
                std::mem::swap(self, &mut whole);
                proof {
                    use_type_invariant(&whole);
                }
                let KeyMap { mut entries, model } = whole;
                let ghost before = entries@;
                let (_, v) = entries.remove(i);
                let ghost m = model@.remove(k@);
                assert forall|j: int| 0 <= j < entries@.len() implies {
                    &&& m.contains_key(#[trigger] entries@[j].0@)
                    &&& m[entries@[j].0@] == entries@[j].1
                } by {
                    if j < i {
                        assert(entries@[j] == before[j]);
                    } else {
                        assert(entries@[j] == before[j + 1]);
                    }
                }
                assert forall|key: Seq<char>| #[trigger] m.contains_key(key) implies exists|j: int|
                    0 <= j < entries@.len() && #[trigger] entries@[j].0@ == key by {
                    let w = choose|w: int| 0 <= w < before.len() && #[trigger] before[w].0@ == key;
                    if w < i {
                        assert(entries@[w] == before[w]);
                    } else {
                        assert(entries@[w - 1] == before[w]);
                    }
                }
                assert forall|a: int, b: int| 0 <= a < b < entries@.len() implies
                    #[trigger] entries@[a].0@ != #[trigger] entries@[b].0@ by {
                    let a0 = if a < i { a } else { a + 1 };
                    let b0 = if b < i { b } else { b + 1 };
                    assert(entries@[a] == before[a0]);
                    assert(entries@[b] == before[b0]);
                }
                assert(well_kept(entries@, m));
                *self = KeyMap { entries, model: Ghost(m) };
                Some(v)
            },
        }
    }

    /// Puts `v` under `k`, replacing any value that was there.
    pub fn insert(&mut self, k: String, v: V)
        ensures
            final(self)@ == old(self)@.insert(k@, v),
    {
        let _ = self.remove(&k);
        let mut whole = KeyMap::new();
        std::mem::swap(self, &mut whole);
        proof {
            use_type_invariant(&whole);
        }
        let KeyMap { mut entries, model } = whole;
        let ghost before = entries@;
        let ghost key = k@;
        let ghost m = model@.insert(k@, v);
        assert(!model@.contains_key(key));
        entries.push((k, v));
        assert forall|j: int| 0 <= j < entries@.len() implies {
            &&& m.contains_key(#[trigger] entries@[j].0@)
            &&& m[entries@[j].0@] == entries@[j].1
        } by {
            if j < before.len() {
                assert(entries@[j] == before[j]);
            }
        }
        assert forall|q: Seq<char>| #[trigger] m.contains_key(q) implies exists|j: int|
            0 <= j < entries@.len() && #[trigger] entries@[j].0@ == q by {
            if q == key {
                assert(entries@[before.len() as int].0@ == q);
            } else {
                let w = choose|w: int| 0 <= w < before.len() && #[trigger] before[w].0@ == q;
                assert(entries@[w] == before[w]);
            }
        }
        assert forall|a: int, b: int| 0 <= a < b < entries@.len() implies
            #[trigger] entries@[a].0@ != #[trigger] entries@[b].0@ by {
            assert(entries@[a] == before[a]);
            if b < before.len() {
                assert(entries@[b] == before[b]);
            }
        }
        assert(well_kept(entries@, m));
        *self = KeyMap { entries, model: Ghost(m) };
    }

    /// The keys present, each once.
    pub fn keys(&self) -> (r: Vec<String>)
        ensures
            r.deep_view().no_duplicates(),
            r.deep_view().to_set() == self@.dom(),
    {
        proof {
            use_type_invariant(self);
        }
        let mut r: Vec<String> = Vec::new();
        let mut i: usize = 0;
        while i < self.entries.len()
            invariant
                i <= self.entries@.len(),
                well_kept(self.entries@, self.model@),
                r@.len() == i,
                forall|j: int| 0 <= j < i ==> #[trigger] r@[j]@ == self.entries@[j].0@,
            decreases self.entries@.len() - i,
        {
            r.push(self.entries[i].0.clone());
            i = i + 1;
        }
        proof {
            assert forall|a: int, b: int| 0 <= a < r.deep_view().len() && 0 <= b < r.deep_view().len() && a != b
                implies r.deep_view()[a] != r.deep_view()[b] by {
                if a < b {
                    assert(self.entries@[a].0@ != self.entries@[b].0@);
                } else {
                    assert(self.entries@[b].0@ != self.entries@[a].0@);
                }
            }
            assert forall|k: Seq<char>| r.deep_view().to_set().contains(k) == self@.dom().contains(k) by {
                if self@.dom().contains(k) {
                    let w = choose|w: int| 0 <= w < self.entries@.len() && #[trigger] self.entries@[w].0@ == k;
                    assert(r.deep_view()[w] == k);
                }
                if r.deep_view().to_set().contains(k) {
                    let w = choose|w: int| 0 <= w < r.deep_view().len() && r.deep_view()[w] == k;
                    assert(self.entries@[w].0@ == k);
                }
            }
            assert(r.deep_view().to_set() =~= self@.dom());
        }
        r
    }
}

} // verus!
