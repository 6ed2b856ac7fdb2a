use vstd::prelude::*;

use crate::identity::Identity;

verus! {

/// One stored value under the identity that owns it.
#[derive(Clone, Debug)]
pub struct Entry<T> {
    pub key: Identity,
    pub value: T,
}

/// A store of values keyed by identity: at most one entry per identity,
/// kept in insertion order.
pub struct IdentityMap<T> {
    entries: Vec<Entry<T>>,
    contents: Ghost<Map<Seq<char>, T>>,
}

impl<T> View for IdentityMap<T> {
    type V = Map<Seq<char>, T>;

    closed spec fn view(&self) -> Map<Seq<char>, T> {
        self.contents@
    }
}

/// No two entries share a key.
pub open spec fn distinct_keys<T>(s: Seq<Entry<T>>) -> bool {
    forall|i: int, j: int| 0 <= i < j < s.len() ==> s[i].key@ != s[j].key@
}

/// The entries hold exactly the map: distinct keys, each with its value,
/// and no other key.
pub open spec fn entries_match<T>(s: Seq<Entry<T>>, m: Map<Seq<char>, T>) -> bool {
    &&& distinct_keys(s)
    &&& forall|i: int| 0 <= i < s.len() ==> #[trigger] m.contains_key(s[i].key@) && m[s[i].key@] == s[i].value
    &&& forall|k: Seq<char>| #[trigger] m.contains_key(k) ==> exists|i: int| 0 <= i < s.len() && s[i].key@ == k
}

impl<T: Copy> IdentityMap<T> {
    /// Entries have distinct keys, and the map is exactly what they hold.
    pub closed spec fn wf(&self) -> bool {
        &&& forall|i: int, j: int|
            0 <= i < j < self.entries@.len() ==> self.entries@[i].key@ != self.entries@[j].key@
        &&& forall|i: int|
            0 <= i < self.entries@.len() ==> {
                &&& #[trigger] self.contents@.contains_key(self.entries@[i].key@)
                &&& self.contents@[self.entries@[i].key@] == self.entries@[i].value
            }
        &&& forall|k: Seq<char>|
            #[trigger] self.contents@.contains_key(k) ==> exists|i: int|
                0 <= i < self.entries@.len() && self.entries@[i].key@ == k
    }

    pub fn new() -> (r: IdentityMap<T>)
        ensures
            r.wf(),
            r@ == Map::<Seq<char>, T>::empty(),
    {
        IdentityMap { entries: Vec::new(), contents: Ghost(Map::empty()) }
    }

    /// Position of the entry for `key`, if there is one.
    fn position(&self, key: &Identity) -> (r: Option<usize>)
        requires
            self.wf(),
        ensures
            match r {
                Some(i) => i < self.entries@.len() && self.entries@[i as int].key@ == key@,
                None => !self@.contains_key(key@),
            },
    {
        let mut i: usize = 0;
        while i < self.entries.len()
            invariant
                i <= self.entries@.len(),
                forall|j: int| 0 <= j < i ==> self.entries@[j].key@ != key@,
            decreases self.entries@.len() - i,
        {
            if self.entries[i].key.same_as(key) {
                return Some(i);
            }
            i = i + 1;
        }
        None
    }

    /// The value stored for `key`, if any.
    pub fn get(&self, key: &Identity) -> (r: Option<T>)
        requires
            self.wf(),
        ensures
            r == (if self@.contains_key(key@) {
                Some(self@[key@])
            } else {
                None::<T>
            }),
    {
        match self.position(key) {
            Some(i) => Some(self.entries[i].value),
            None => None,
        }
    }

    /// Stores `value` under `key`, replacing any earlier value.
    pub fn insert(&mut self, key: &Identity, value: T)
        requires
            old(self).wf(),
        ensures
            final(self).wf(),
            final(self)@ == old(self)@.insert(key@, value),
    {
        let ghost pre = self.entries@;
        let ghost m = self.contents@;
        let ghost at: int;
        match self.position(key) {
            Some(i) => {
                self.entries.set(i, Entry { key: key.duplicate(), value });
                proof {
                    at = i as int;
                    assert forall|j: int| 0 <= j < pre.len() && j != at implies #[trigger] self.entries@[j]
                        == pre[j] by {}
                }
            },
            None => {
                self.entries.push(Entry { key: key.duplicate(), value });
                proof {
                    at = pre.len() as int;
                    assert forall|j: int| 0 <= j < pre.len() implies pre[j].key@ != key@ by {
                        assert(m.contains_key(pre[j].key@));
                    }
                }
            },
        }
        self.contents = Ghost(m.insert(key@, value));
        proof {
            assert(self.entries@[at].key@ == key@);
            assert(self.entries@[at].value == value);
            assert forall|j: int| 0 <= j < self.entries@.len() && j != at implies #[trigger] self.entries@[j]
                == pre[j] && pre[j].key@ != key@ by {}
            assert forall|i: int, j: int|
                0 <= i < j < self.entries@.len() implies self.entries@[i].key@ != self.entries@[j].key@ by {
                if i != at && j != at {
                    assert(self.entries@[i] == pre[i]);
                    assert(self.entries@[j] == pre[j]);
                }
            }
            assert forall|k: Seq<char>| #[trigger] self.contents@.contains_key(k) implies exists|i: int|
                0 <= i < self.entries@.len() && self.entries@[i].key@ == k by {
                if k != key@ {
                    let i = choose|i: int| 0 <= i < pre.len() && pre[i].key@ == k;
                    assert(self.entries@[i].key@ == k);
                }
            }
        }
    }
    /// The entries, in insertion order.
    pub fn to_entries(&self) -> (r: Vec<Entry<T>>)
        requires
            self.wf(),
        ensures
            entries_match(r@, self@),
    {
        let mut out: Vec<Entry<T>> = Vec::new();
        let mut i: usize = 0;
        while i < self.entries.len()
            invariant
                self.wf(),
                i <= self.entries@.len(),
                out@.len() == i,
                forall|j: int| 0 <= j < i ==> out@[j].key == self.entries@[j].key && out@[j].value
                    == self.entries@[j].value,
            decreases self.entries@.len() - i,
        {
            let e = &self.entries[i];
            out.push(Entry { key: e.key.duplicate(), value: e.value });
            i = i + 1;
        }
        proof {
            assert forall|k: Seq<char>| #[trigger] self@.contains_key(k) implies exists|j: int|
                0 <= j < out@.len() && out@[j].key@ == k by {
                let j = choose|j: int| 0 <= j < self.entries@.len() && self.entries@[j].key@ == k;
                assert(out@[j].key@ == k);
            }
        }
        out
    }

    /// The map holding `entries`, or `None` when two of them share a key.
    pub fn from_entries(entries: Vec<Entry<T>>) -> (r: Option<IdentityMap<T>>)
        ensures
            r is Some <==> distinct_keys(entries@),
            r matches Some(m) ==> m.wf() && entries_match(entries@, m@),
    {
        let mut m = IdentityMap::new();
        let mut i: usize = 0;
        while i < entries.len()
            invariant
                m.wf(),
                i <= entries@.len(),
                distinct_keys(entries@.subrange(0, i as int)),
                forall|j: int| 0 <= j < i ==> #[trigger] m@.contains_key(entries@[j].key@)
                    && m@[entries@[j].key@] == entries@[j].value,
                forall|k: Seq<char>| #[trigger] m@.contains_key(k) ==> exists|j: int|
                    0 <= j < i && entries@[j].key@ == k,
            decreases entries@.len() - i,
        {
            let e = &entries[i];
            if m.get(&e.key).is_some() {
                proof {
                    let j = choose|j: int| 0 <= j < i && entries@[j].key@ == entries@[i as int].key@;
                    assert(!distinct_keys(entries@)) by {
                        assert(entries@[j].key@ == entries@[i as int].key@);
                    }
                }
                return None;
            }
            let ghost pre = m@;
            m.insert(&e.key, e.value);
            proof {
                let s2 = entries@.subrange(0, i + 1);
                assert forall|a: int, b: int| #![trigger s2[a], s2[b]]
                    0 <= a < b < i + 1 implies s2[a].key@ != s2[b].key@ by {
                    if b == i {
                        assert(pre.contains_key(entries@[a].key@));
                    } else {
                        assert(entries@.subrange(0, i as int)[a] == entries@[a]);
                        assert(entries@.subrange(0, i as int)[b] == entries@[b]);
                    }
                }
                assert forall|j: int| 0 <= j < i + 1 implies #[trigger] m@.contains_key(entries@[j].key@)
                    && m@[entries@[j].key@] == entries@[j].value by {
                    if j < i {
                        assert(pre.contains_key(entries@[j].key@));
                        assert(entries@[j].key@ != entries@[i as int].key@);
                    }
                }
                assert forall|k: Seq<char>| #[trigger] m@.contains_key(k) implies exists|j: int|
                    0 <= j < i + 1 && entries@[j].key@ == k by {
                    if k != entries@[i as int].key@ {
                        assert(pre.contains_key(k));
                    }
                }
            }
            i = i + 1;
        }
        proof {
            assert(entries@.subrange(0, i as int) =~= entries@);
        }
        Some(m)
    }
}

} // verus!
