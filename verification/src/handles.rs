use vstd::prelude::*;

verus! {

/// The handle table: service-assigned numeric ids mapped to open-file
/// state. Ids are assigned by a monotonically increasing counter and never
/// reused, so the keys are unique. The view is the association list.
pub struct HandleTable<T> {
    entries: Vec<(u64, T)>,
}

impl<T> View for HandleTable<T> {
    type V = Seq<(u64, T)>;

    closed spec fn view(&self) -> Seq<(u64, T)> {
        self.entries@
    }
}

/// Index of the entry keyed `k`, scanning from `i`.
pub open spec fn spec_ht_index<T>(s: Seq<(u64, T)>, k: u64, i: int) -> Option<int>
    decreases s.len() - i,
{
    if i < 0 || i >= s.len() {
        None
    } else if s[i].0 == k {
        Some(i)
    } else {
        spec_ht_index(s, k, i + 1)
    }
}

/// The value stored under `k`, if any.
pub open spec fn spec_ht_get<T>(s: Seq<(u64, T)>, k: u64) -> Option<T> {
    match spec_ht_index(s, k, 0) {
        Some(i) => Some(s[i].1),
        None => None,
    }
}

/// A found index lies within the sequence and carries the key.
pub proof fn lemma_ht_index_bounds<T>(s: Seq<(u64, T)>, k: u64, i: int)
    requires
        spec_ht_index(s, k, i) is Some,
    ensures
        ({
            let f = spec_ht_index(s, k, i)->0;
            i <= f < s.len() && s[f].0 == k
        }),
    decreases s.len() - i,
{
    if i < 0 || i >= s.len() {
    } else if s[i].0 == k {
    } else {
        lemma_ht_index_bounds(s, k, i + 1);
    }
}

impl<T> HandleTable<T> {
    /// No two entries carry the same id.
    pub open spec fn wf(&self) -> bool {
        forall|i: int, j: int|
            0 <= i < j < self@.len() ==> (#[trigger] self@[i]).0 != (#[trigger] self@[j]).0
    }

    /// The empty table.
    pub fn new() -> (r: HandleTable<T>)
        ensures
            r@ == Seq::<(u64, T)>::empty(),
            r.wf(),
    {
        HandleTable { entries: Vec::new() }
    }

    pub fn len(&self) -> (r: usize)
        ensures
            r == self@.len(),
    {
        self.entries.len()
    }

    /// Index of the entry keyed `id`.
    fn find(&self, id: u64) -> (r: Option<usize>)
        ensures
            match r {
                Some(i) => spec_ht_index(self@, id, 0) == Some(i as int),
                None => spec_ht_index(self@, id, 0) is None,
            },
    {
        let mut i: usize = 0;
        while i < self.entries.len()
            invariant
                i <= self@.len(),
                spec_ht_index(self@, id, 0) == spec_ht_index(self@, id, i as int),
            decreases self@.len() - i,
        {
            if self.entries[i].0 == id {
                return Some(i);
            }
            i = i + 1;
        }
        None
    }

    /// Store `v` under the fresh id `id`.
    pub fn insert(&mut self, id: u64, v: T)
        requires
            old(self).wf(),
            spec_ht_get(old(self)@, id) is None,
        ensures
            final(self)@ == old(self)@.push((id, v)),
            final(self).wf(),
            spec_ht_get(final(self)@, id) == Some(v),
    {
        proof {
            lemma_ht_absent_all(old(self)@, id, 0);
        }
        self.entries.push((id, v));
        proof {
            lemma_ht_found_at(self@, id, 0, self@.len() - 1);
        }
    }

    /// Remove and return the entry keyed `id`.
    pub fn remove(&mut self, id: u64) -> (r: Option<T>)
        requires
            old(self).wf(),
        ensures
            final(self).wf(),
            match r {
                Some(v) => {
                    &&& spec_ht_get(old(self)@, id) == Some(v)
                    &&& spec_ht_index(old(self)@, id, 0) matches Some(i) && final(self)@ == old(
                        self,
                    )@.remove(i)
                },
                None => spec_ht_get(old(self)@, id) is None && *final(self) == *old(self),
            },
    {
        match self.find(id) {
            Some(i) => {
                proof {
                    lemma_ht_index_bounds(self@, id, 0);
                }
                let (_, v) = self.entries.remove(i);
                Some(v)
            },
            None => None,
        }
    }

    /// Take the entry keyed `id` out of the table for mutation.
    pub fn take(&mut self, id: u64) -> (r: Option<(usize, T)>)
        requires
            old(self).wf(),
        ensures
            final(self).wf(),
            match r {
                Some((i, v)) => {
                    &&& spec_ht_index(old(self)@, id, 0) == Some(i as int)
                    &&& i < old(self)@.len()
                    &&& old(self)@[i as int] == (id, v)
                    &&& final(self)@ == old(self)@.remove(i as int)
                },
                None => spec_ht_get(old(self)@, id) is None && *final(self) == *old(self),
            },
    {
        match self.find(id) {
            Some(i) => {
                proof {
                    lemma_ht_index_bounds(self@, id, 0);
                }
                let (k, v) = self.entries.remove(i);
                Some((i, v))
            },
            None => None,
        }
    }

    /// Put an entry back at the position `take` removed it from.
    pub fn put_back(&mut self, i: usize, id: u64, v: T)
        requires
            old(self).wf(),
            i <= old(self)@.len(),
            spec_ht_get(old(self)@, id) is None,
        ensures
            final(self)@ == old(self)@.insert(i as int, (id, v)),
            final(self).wf(),
    {
        proof {
            lemma_ht_absent_all(old(self)@, id, 0);
        }
        self.entries.insert(i, (id, v));
    }

    /// Borrow the entry keyed `id`.
    pub fn get(&self, id: u64) -> (r: Option<&T>)
        ensures
            match r {
                Some(v) => spec_ht_get(self@, id) == Some(*v),
                None => spec_ht_get(self@, id) is None,
            },
    {
        match self.find(id) {
            Some(i) => {
                proof {
                    lemma_ht_index_bounds(self@, id, 0);
                }
                Some(&self.entries[i].1)
            },
            None => None,
        }
    }
}

/// When no index holds `k`, no entry at or after `i` carries `k`.
proof fn lemma_ht_absent_all<T>(s: Seq<(u64, T)>, k: u64, i: int)
    requires
        spec_ht_index(s, k, 0) is None,
        0 <= i,
    ensures
        forall|j: int| i <= j < s.len() ==> (#[trigger] s[j]).0 != k,
    decreases s.len() - i,
{
    lemma_ht_absent_from(s, k, 0);
}

/// Scanning from `i` finds nothing only when no later entry carries `k`.
proof fn lemma_ht_absent_from<T>(s: Seq<(u64, T)>, k: u64, i: int)
    requires
        0 <= i,
        spec_ht_index(s, k, i) is None,
    ensures
        forall|j: int| i <= j < s.len() ==> (#[trigger] s[j]).0 != k,
    decreases s.len() - i,
{
    if i >= s.len() {
    } else {
        lemma_ht_absent_from(s, k, i + 1);
    }
}

/// When entries before `at` miss `k` and `s[at]` carries it, the scan finds
/// `at`.
proof fn lemma_ht_found_at<T>(s: Seq<(u64, T)>, k: u64, i: int, at: int)
    requires
        0 <= i <= at < s.len(),
        s[at].0 == k,
        forall|j: int| 0 <= j < at ==> (#[trigger] s[j]).0 != k,
    ensures
        spec_ht_index(s, k, i) == Some(at),
    decreases at - i,
{
    if i == at {
    } else {
        lemma_ht_found_at(s, k, i + 1, at);
    }
}

} // verus!

verus! {

/// Pairwise distinct keys.
pub open spec fn unique_keys<T>(s: Seq<(u64, T)>) -> bool {
    forall|i: int, j: int| 0 <= i < j < s.len() ==> (#[trigger] s[i]).0 != (#[trigger] s[j]).0
}

/// When no entry at or after `j` carries `k`, the scan finds nothing.
pub proof fn lemma_ht_none_when_absent<T>(s: Seq<(u64, T)>, k: u64, j: int)
    requires
        0 <= j,
        forall|l: int| j <= l < s.len() ==> (#[trigger] s[l]).0 != k,
    ensures
        spec_ht_index(s, k, j) is None,
    decreases s.len() - j,
{
    if j >= s.len() {
    } else {
        lemma_ht_none_when_absent(s, k, j + 1);
    }
}

/// A key above every stored key is absent.
pub proof fn lemma_ht_fresh_above<T>(s: Seq<(u64, T)>, bound: u64)
    requires
        forall|i: int| 0 <= i < s.len() ==> (#[trigger] s[i]).0 < bound,
    ensures
        spec_ht_get(s, bound) is None,
{
    lemma_ht_none_when_absent(s, bound, 0);
}

/// After taking the unique entry keyed `k` out, `k` is absent.
pub proof fn lemma_ht_take_absent<T>(s: Seq<(u64, T)>, i: int, k: u64)
    requires
        unique_keys(s),
        0 <= i < s.len(),
        s[i].0 == k,
    ensures
        spec_ht_get(s.remove(i), k) is None,
{
    let s2 = s.remove(i);
    assert forall|l: int| 0 <= l < s2.len() implies (#[trigger] s2[l]).0 != k by {
        if l < i {
            assert(s2[l] == s[l]);
        } else {
            assert(s2[l] == s[l + 1]);
        }
    }
    lemma_ht_none_when_absent(s2, k, 0);
}

} // verus!
