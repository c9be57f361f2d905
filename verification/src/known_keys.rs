//! The table of public keys known to come from each upstream agent.

use vstd::prelude::*;

verus! {

/// Two byte strings are equal.
pub fn same_bytes(a: &Vec<u8>, b: &Vec<u8>) -> (r: bool)
    ensures
        r == (a@ == b@),
{
    if a.len() != b.len() {
        return false;
    }
    let mut i: usize = 0;
    while i < a.len()
        invariant
            a.len() == b.len(),
            i <= a.len(),
            forall|k: int| 0 <= k < i ==> a@[k] == b@[k],
        decreases a.len() - i,
    {
        if a[i] != b[i] {
            assert(a@[i as int] != b@[i as int]);
            return false;
        }
        i = i + 1;
    }
    assert(a@ =~= b@);
    true
}

/// Map from a public key (its SSH wire encoding) to the index of the
/// upstream agent that offers it. Each key occurs at most once.
pub struct KnownKeys {
    entries: Vec<(Vec<u8>, usize)>,
    table: Ghost<Map<Seq<u8>, usize>>,
}

impl KnownKeys {
    /// The keys and the agents they map to.
    pub closed spec fn view(&self) -> Map<Seq<u8>, usize> {
        self.table@
    }

    /// The entries agree with the table, and no key occurs twice.
    pub closed spec fn wf(&self) -> bool {
        &&& forall|i: int|
            0 <= i < self.entries@.len() ==> {
                &&& #[trigger] self.table@.contains_key(self.entries@[i].0@)
                &&& self.table@[self.entries@[i].0@] == self.entries@[i].1
            }
        &&& forall|k: Seq<u8>|
            #[trigger] self.table@.contains_key(k) ==> exists|i: int|
                0 <= i < self.entries@.len() && #[trigger] self.entries@[i].0@ == k
        &&& forall|i: int, j: int|
            0 <= i < self.entries@.len() && 0 <= j < self.entries@.len() && i != j
                ==> #[trigger] self.entries@[i].0@ != #[trigger] self.entries@[j].0@
    }

    /// An empty table.
    pub fn new() -> (t: Self)
        ensures
            t.wf(),
            t.view() == Map::<Seq<u8>, usize>::empty(),
    {
        KnownKeys { entries: Vec::new(), table: Ghost(Map::empty()) }
    }

    /// Forget every key.
    pub fn clear(&mut self)
        ensures
            final(self).wf(),
            final(self).view() == Map::<Seq<u8>, usize>::empty(),
    {
        self.entries = Vec::new();
        self.table = Ghost(Map::empty());
    }

    /// Position of `key` among the entries, if present.
    fn position(&self, key: &Vec<u8>) -> (r: Option<usize>)
        requires
            self.wf(),
        ensures
            match r {
                Some(i) => i < self.entries@.len() && self.entries@[i as int].0@ == key@,
                None => !self.view().contains_key(key@),
            },
    {
        let mut i: usize = 0;
        while i < self.entries.len()
            invariant
                self.wf(),
                i <= self.entries@.len(),
                forall|k: int| 0 <= k < i ==> self.entries@[k].0@ != key@,
            decreases self.entries@.len() - i,
        {
            if same_bytes(&self.entries[i].0, key) {
                return Some(i);
            }
            i = i + 1;
        }
        proof {
            if self.table@.contains_key(key@) {
                let j = choose|j: int| 0 <= j < self.entries@.len() && #[trigger] self.entries@[j].0@ == key@;
                assert(self.entries@[j].0@ == key@);
            }
        }
        None
    }

    /// The agent that `key` maps to, if any.
    pub fn get(&self, key: &Vec<u8>) -> (r: Option<usize>)
        requires
            self.wf(),
        ensures
            r == (if self.view().contains_key(key@) { Some(self.view()[key@]) } else { None }),
    {
        match self.position(key) {
            Some(i) => {
                assert(self.table@.contains_key(self.entries@[i as int].0@));
                Some(self.entries[i].1)
            },
            None => None,
        }
    }

    /// Map `key` to `agent`, replacing any earlier mapping of `key`.
    pub fn insert(&mut self, key: Vec<u8>, agent: usize)
        requires
            old(self).wf(),
        ensures
            final(self).wf(),
            final(self).view() == old(self).view().insert(key@, agent),
    {
        let ghost old_entries = self.entries@;
        let ghost old_table = self.table@;
        match self.position(&key) {
            Some(i) => {
                let k = self.entries[i].0.clone();
                assert(k@ == key@);
                self.entries.set(i, (k, agent));
                self.table = Ghost(old_table.insert(key@, agent));
                assert forall|m: int|
                    0 <= m < self.entries@.len() implies {
                        &&& #[trigger] self.table@.contains_key(self.entries@[m].0@)
                        &&& self.table@[self.entries@[m].0@] == self.entries@[m].1
                    } by {
                    if m != i {
                        assert(old_entries[m].0@ != old_entries[i as int].0@);
                    }
                }
                assert forall|q: Seq<u8>| #[trigger] self.table@.contains_key(q) implies exists|m: int|
                    0 <= m < self.entries@.len() && #[trigger] self.entries@[m].0@ == q by {
                    if q == key@ {
                        assert(self.entries@[i as int].0@ == q);
                    } else {
                        assert(old_table.contains_key(q));
                        let m = choose|m: int| 0 <= m < old_entries.len() && #[trigger] old_entries[m].0@ == q;
                        assert(self.entries@[m].0@ == q);
                    }
                }
            },
            None => {
                self.entries.push((key, agent));
                self.table = Ghost(old_table.insert(key@, agent));
                let ghost n = old_entries.len() as int;
                assert forall|m: int|
                    0 <= m < self.entries@.len() implies {
                        &&& #[trigger] self.table@.contains_key(self.entries@[m].0@)
                        &&& self.table@[self.entries@[m].0@] == self.entries@[m].1
                    } by {
                    if m < n {
                        assert(old_table.contains_key(old_entries[m].0@));
                        assert(old_entries[m].0@ != key@);
                    }
                }
                assert forall|q: Seq<u8>| #[trigger] self.table@.contains_key(q) implies exists|m: int|
                    0 <= m < self.entries@.len() && #[trigger] self.entries@[m].0@ == q by {
                    if q == key@ {
                        assert(self.entries@[n].0@ == q);
                    } else {
                        let m = choose|m: int| 0 <= m < old_entries.len() && #[trigger] old_entries[m].0@ == q;
                        assert(self.entries@[m].0@ == q);
                    }
                }
                assert forall|a: int, b: int|
                    0 <= a < self.entries@.len() && 0 <= b < self.entries@.len() && a != b
                        implies #[trigger] self.entries@[a].0@ != #[trigger] self.entries@[b].0@ by {
                    if a == n {
                        assert(old_table.contains_key(old_entries[b].0@));
                    } else if b == n {
                        assert(old_table.contains_key(old_entries[a].0@));
                    }
                }
            },
        }
        assert(self.table@ =~= old_table.insert(key@, agent));
    }
}

} // verus!
