//! The response cache of one crawl run: for each requested URL, the body of
//! its successful fetch, or a marker that the fetch was tried and failed.

use vstd::prelude::*;
use crate::text::opt_view;

verus! {

/// Maps a request URL to `Some(body)` after a successful fetch, or to `None`
/// after a failed one; a URL never requested has no entry.
pub struct ResponseCache {
    entries: Vec<(String, Option<String>)>,
    model: Ghost<Map<Seq<char>, Option<Seq<char>>>>,
}

impl View for ResponseCache {
    type V = Map<Seq<char>, Option<Seq<char>>>;

    closed spec fn view(&self) -> Self::V {
        self.model@
    }
}

impl ResponseCache {
    /// Entries are keyed by distinct URLs and agree with the model.
    pub closed spec fn wf(&self) -> bool {
        &&& forall|i: int, j: int|
            0 <= i < j < self.entries@.len() ==> self.entries@[i].0@ != self.entries@[j].0@
        &&& forall|i: int|
            0 <= i < self.entries@.len() ==> self.model@.contains_key(#[trigger] self.entries@[i].0@)
                && self.model@[self.entries@[i].0@] == opt_view(self.entries@[i].1)
        &&& forall|k: Seq<char>|
            self.model@.contains_key(k) ==> exists|i: int|
                0 <= i < self.entries@.len() && #[trigger] self.entries@[i].0@ == k
    }

    /// An empty cache, as at the start of a run.
    pub fn new() -> (r: ResponseCache)
        ensures
            r.wf(),
            r@ == Map::<Seq<char>, Option<Seq<char>>>::empty(),
    {
        ResponseCache { entries: Vec::new(), model: Ghost(Map::empty()) }
    }

    fn position(&self, key: &str) -> (r: Option<usize>)
        requires
            self.wf(),
        ensures
            match r {
                Some(i) => i < self.entries@.len() && self.entries@[i as int].0@ == key@,
                None => !self@.contains_key(key@),
            },
    {
        let target = String::from_str(key);
        let mut i: usize = 0;
        while i < self.entries.len()
            invariant
                i <= self.entries@.len(),
                target@ == key@,
                forall|t: int| 0 <= t < i ==> self.entries@[t].0@ != key@,
            decreases self.entries@.len() - i,
        {
            if self.entries[i].0 == target {
                return Some(i);
            }
            i = i + 1;
        }
        proof {
            if self@.contains_key(key@) {
                let t = choose|t: int| 0 <= t < self.entries@.len() && #[trigger] self.entries@[t].0@ == key@;
                assert(self.entries@[t].0@ != key@);
            }
        }
        None
    }

    /// The outcome recorded for `key`, if a fetch of it was ever recorded.
    pub fn get(&self, key: &str) -> (r: Option<Option<String>>)
        requires
            self.wf(),
        ensures
            match r {
                Some(v) => self@.contains_key(key@) && self@[key@] == opt_view(v),
                None => !self@.contains_key(key@),
            },
    {
        match self.position(key) {
            Some(i) => {
                let v = match &self.entries[i].1 {
                    Some(b) => Some(b.clone()),
                    None => None,
                };
                Some(v)
            },
            None => None,
        }
    }

    /// Records the outcome of a fetch of `key`.
    pub fn put(&mut self, key: String, value: Option<String>)
        requires
            old(self).wf(),
        ensures
            final(self).wf(),
            final(self)@ == old(self)@.insert(key@, opt_view(value)),
    {
        let ghost m = self.model@.insert(key@, opt_view(value));
        match self.position(key.as_str()) {
            Some(i) => {
                let ghost old_entries = self.entries@;
                self.entries.set(i, (key, value));
                self.model = Ghost(m);
                assert forall|k: Seq<char>| self.model@.contains_key(k) implies exists|t: int|
                    0 <= t < self.entries@.len() && #[trigger] self.entries@[t].0@ == k by {
                    if k != self.entries@[i as int].0@ {
                        let t = choose|t: int| 0 <= t < old_entries.len() && #[trigger] old_entries[t].0@ == k;
                        assert(self.entries@[t].0@ == k);
                    } else {
                        assert(self.entries@[i as int].0@ == k);
                    }
                }
            },
            None => {
                let ghost old_entries = self.entries@;
                let ghost kv = key@;
                self.entries.push((key, value));
                self.model = Ghost(m);
                assert forall|k: Seq<char>| self.model@.contains_key(k) implies exists|t: int|
                    0 <= t < self.entries@.len() && #[trigger] self.entries@[t].0@ == k by {
                    if k != kv {
                        let t = choose|t: int| 0 <= t < old_entries.len() && #[trigger] old_entries[t].0@ == k;
                        assert(self.entries@[t].0@ == k);
                    } else {
                        assert(self.entries@[old_entries.len() as int].0@ == k);
                    }
                }
                assert forall|a: int, b: int| 0 <= a < b < self.entries@.len() implies self.entries@[a].0@ != self.entries@[b].0@ by {
                    if b == old_entries.len() {
                        assert(old_entries[a].0@ != kv);
                    }
                }
            },
        }
        assert(self.model@ =~= m);
    }

    /// How many URLs have a recorded outcome.
    pub fn len(&self) -> (r: usize)
        requires
            self.wf(),
        ensures
            r == self@.dom().len(),
    {
        proof {
            self.lemma_dom_len();
        }
        self.entries.len()
    }

    proof fn lemma_dom_len(&self)
        requires
            self.wf(),
        ensures
            self.entries@.len() == self@.dom().len(),
    {
        let keys = self.entries@.map_values(|e: (String, Option<String>)| e.0@);
        assert(keys.no_duplicates()) by {
            assert forall|i: int, j: int| 0 <= i < keys.len() && 0 <= j < keys.len() && i != j implies keys[i] != keys[j] by {
                if i < j {
                    assert(self.entries@[i].0@ != self.entries@[j].0@);
                } else {
                    assert(self.entries@[j].0@ != self.entries@[i].0@);
                }
            }
        }
        assert(keys.to_set() =~= self@.dom()) by {
            assert forall|k: Seq<char>| keys.to_set().contains(k) <==> self@.dom().contains(k) by {
                if self@.dom().contains(k) {
                    let t = choose|t: int| 0 <= t < self.entries@.len() && #[trigger] self.entries@[t].0@ == k;
                    assert(keys[t] == k);
                }
                if keys.to_set().contains(k) {
                    let t = choose|t: int| 0 <= t < keys.len() && keys[t] == k;
                    assert(self.entries@[t].0@ == k);
                }
            }
        }
        keys.unique_seq_to_set();
    }
}

} // verus!
