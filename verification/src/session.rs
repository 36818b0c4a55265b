//! The table of open sessions: which session token each logged-in user holds.

use vstd::prelude::*;

verus! {

/// Session tokens by user name. Each name occurs at most once.
pub struct Sessions {
    entries: Vec<(String, String)>,
}

impl Sessions {
    /// No name occurs twice in the table.
    pub closed spec fn wf(&self) -> bool {
        forall|i: int, j: int|
            0 <= i < self.entries@.len() && 0 <= j < self.entries@.len() && i != j
                ==> #[trigger] self.entries@[i].0@ != #[trigger] self.entries@[j].0@
    }

    pub closed spec fn has_key(&self, k: Seq<char>) -> bool {
        exists|i: int| 0 <= i < self.entries@.len() && #[trigger] self.entries@[i].0@ == k
    }

    pub closed spec fn index_of(&self, k: Seq<char>) -> int {
        choose|i: int| 0 <= i < self.entries@.len() && #[trigger] self.entries@[i].0@ == k
    }

    /// The table as a map from user names to tokens.
    pub closed spec fn as_map(&self) -> Map<Seq<char>, Seq<char>> {
        Map::new(|k: Seq<char>| self.has_key(k), |k: Seq<char>| self.entries@[self.index_of(k)].1@)
    }

    proof fn lemma_value_at(&self, i: int)
        requires
            self.wf(),
            0 <= i < self.entries@.len(),
        ensures
            self.as_map().contains_key(self.entries@[i].0@),
            self.as_map()[self.entries@[i].0@] == self.entries@[i].1@,
    {
        let k = self.entries@[i].0@;
        assert(self.has_key(k));
        let j = self.index_of(k);
        assert(self.entries@[j].0@ == k);
    }

    /// An empty table.
    pub fn new() -> (s: Sessions)
        ensures
            s.wf(),
            s@ == Map::<Seq<char>, Seq<char>>::empty(),
    {
        let s = Sessions { entries: Vec::new() };
        assert(s.as_map() =~= Map::<Seq<char>, Seq<char>>::empty());
        s
    }

    fn position(&self, key: &String) -> (r: Option<usize>)
        ensures
            match r {
                Some(i) => i < self.entries@.len() && self.entries@[i as int].0@ == key@,
                None => !self.has_key(key@),
            },
    {
        let mut i: usize = 0;
        while i < self.entries.len()
            invariant
                0 <= i <= self.entries@.len(),
                forall|j: int| 0 <= j < i ==> #[trigger] self.entries@[j].0@ != key@,
            decreases self.entries.len() - i,
        {
            if self.entries[i].0 == *key {
                return Some(i);
            }
            i = i + 1;
        }
        None
    }

    /// The token held by `key`, if it holds one.
    pub fn get(&self, key: &String) -> (r: Option<&String>)
        requires
            self.wf(),
        ensures
            match r {
                Some(v) => self@.contains_key(key@) && self@[key@] == v@,
                None => !self@.contains_key(key@),
            },
    {
        match self.position(key) {
            Some(i) => {
                proof {
                    self.lemma_value_at(i as int);
                }
                Some(&self.entries[i].1)
            },
            None => None,
        }
    }

    /// Gives `key` the token `value`, replacing any token it held before.
    pub fn insert(&mut self, key: String, value: String)
        requires
            old(self).wf(),
        ensures
            final(self).wf(),
            final(self)@ == old(self)@.insert(key@, value@),
    {
        let ghost k = key@;
        let ghost v = value@;
        match self.position(&key) {
            Some(i) => {
                self.entries.set(i, (key, value));
                proof {
                    let o = *old(self);
                    assert(self.entries@ == o.entries@.update(i as int, (self.entries@[i as int])));
                    assert forall|a: int, b: int|
                        0 <= a < self.entries@.len() && 0 <= b < self.entries@.len() && a != b
                            implies #[trigger] self.entries@[a].0@ != #[trigger] self.entries@[b].0@ by {
                        assert(o.entries@[a].0@ == self.entries@[a].0@);
                        assert(o.entries@[b].0@ == self.entries@[b].0@);
                    }
                    assert forall|q: Seq<char>| #[trigger] self.as_map().contains_key(q)
                        == o.as_map().insert(k, v).contains_key(q) by {
                        if self.has_key(q) {
                            let j = choose|j: int| 0 <= j < self.entries@.len() && #[trigger] self.entries@[j].0@ == q;
                            assert(o.entries@[j].0@ == q);
                        }
                        if o.has_key(q) {
                            let j = choose|j: int| 0 <= j < o.entries@.len() && #[trigger] o.entries@[j].0@ == q;
                            assert(self.entries@[j].0@ == q);
                        }
                        if q == k {
                            assert(self.entries@[i as int].0@ == q);
                        }
                    }
                    assert forall|q: Seq<char>| #[trigger] self.as_map().contains_key(q)
                        implies self.as_map()[q] == o.as_map().insert(k, v)[q] by {
                        let j = choose|j: int| 0 <= j < self.entries@.len() && #[trigger] self.entries@[j].0@ == q;
                        self.lemma_value_at(j);
                        if j != i {
                            assert(o.entries@[j] == self.entries@[j]);
                            o.lemma_value_at(j);
                        }
                    }
                    assert(self.as_map() =~= o.as_map().insert(k, v));
                }
            },
            None => {
                self.entries.push((key, value));
                proof {
                    let o = *old(self);
                    let n = o.entries@.len() as int;
                    assert forall|a: int, b: int|
                        0 <= a < self.entries@.len() && 0 <= b < self.entries@.len() && a != b
                            implies #[trigger] self.entries@[a].0@ != #[trigger] self.entries@[b].0@ by {
                        if a < n && b < n {
                            assert(o.entries@[a] == self.entries@[a]);
                            assert(o.entries@[b] == self.entries@[b]);
                        } else if a < n {
                            assert(o.entries@[a] == self.entries@[a]);
                        } else {
                            assert(o.entries@[b] == self.entries@[b]);
                        }
                    }
                    assert forall|q: Seq<char>| #[trigger] self.as_map().contains_key(q)
                        == o.as_map().insert(k, v).contains_key(q) by {
                        if self.has_key(q) {
                            let j = choose|j: int| 0 <= j < self.entries@.len() && #[trigger] self.entries@[j].0@ == q;
                            if j < n {
                                assert(o.entries@[j] == self.entries@[j]);
                            }
                        }
                        if o.has_key(q) {
                            let j = choose|j: int| 0 <= j < o.entries@.len() && #[trigger] o.entries@[j].0@ == q;
                            assert(self.entries@[j] == o.entries@[j]);
                        }
                        if q == k {
                            assert(self.entries@[n].0@ == q);
                        }
                    }
                    assert forall|q: Seq<char>| #[trigger] self.as_map().contains_key(q)
                        implies self.as_map()[q] == o.as_map().insert(k, v)[q] by {
                        let j = choose|j: int| 0 <= j < self.entries@.len() && #[trigger] self.entries@[j].0@ == q;
                        self.lemma_value_at(j);
                        if j < n {
                            assert(o.entries@[j] == self.entries@[j]);
                            o.lemma_value_at(j);
                        }
                    }
                    assert(self.as_map() =~= o.as_map().insert(k, v));
                }
            },
        }
    }
}

impl View for Sessions {
    type V = Map<Seq<char>, Seq<char>>;

    open spec fn view(&self) -> Map<Seq<char>, Seq<char>> {
        self.as_map()
    }
}

} // verus!
