//! The last names seen at signup, with a snapshot of each account.
use vstd::prelude::*;
use crate::event::{same_user, User};

verus! {

/// How many signups the buffer remembers.
pub const RECENCY_LIMIT: usize = 10_000;

/// The snapshots recorded under `key`, oldest first.
pub open spec fn snapshots_of(entries: Seq<(Seq<char>, User)>, key: Seq<char>) -> Seq<User>
    decreases entries.len(),
{
    if entries.len() == 0 {
        Seq::empty()
    } else {
        let rest = snapshots_of(entries.drop_last(), key);
        if entries.last().0 == key {
            rest.push(entries.last().1)
        } else {
            rest
        }
    }
}

/// Some entry is recorded under `key`.
pub open spec fn holds_key(entries: Seq<(Seq<char>, User)>, key: Seq<char>) -> bool {
    exists|i: int| 0 <= i < entries.len() && entries[i].0 == key
}

/// The signups seen last, in order of arrival: each a lowercased name with a
/// snapshot of the account. The oldest leaves first once the limit is reached.
pub struct RecencyBuffer {
    entries: Vec<(String, User)>,
}

impl RecencyBuffer {
    /// The entries, oldest first.
    pub closed spec fn view_entries(&self) -> Seq<(Seq<char>, User)> {
        self.entries@.map_values(|e: (String, User)| (e.0@, e.1))
    }

    /// The buffer stays within its limit.
    pub open spec fn wf(&self) -> bool {
        self.view_entries().len() <= RECENCY_LIMIT
    }

    /// An empty buffer.
    pub fn new() -> (r: RecencyBuffer)
        ensures
            r.wf(),
            r.view_entries().len() == 0,
    {
        let r = RecencyBuffer { entries: Vec::new() };
        assert(r.view_entries() =~= Seq::empty());
        r
    }

    /// The number of entries.
    pub fn len(&self) -> (r: usize)
        ensures
            r == self.view_entries().len(),
    {
        self.entries.len()
    }

    /// Records a signup under `key`, dropping the oldest entry once more than
    /// the limit would remain.
    pub fn push(&mut self, key: String, user: User)
        requires
            old(self).wf(),
        ensures
            final(self).wf(),
            final(self).view_entries() == if old(self).view_entries().len() >= RECENCY_LIMIT {
                old(self).view_entries().push((key@, user)).drop_first()
            } else {
                old(self).view_entries().push((key@, user))
            },
    {
        let ghost before = self.view_entries();
        let ghost k = key@;
        self.entries.push((key, user));
        assert(self.view_entries() =~= before.push((k, user)));
        if self.entries.len() > RECENCY_LIMIT {
            let ghost mid = self.entries@;
            self.entries.remove(0);
            assert(self.view_entries() =~= before.push((k, user)).drop_first());
        }
    }

    /// Whether some entry is recorded under `key`.
    pub fn contains(&self, key: &String) -> (r: bool)
        ensures
            r == holds_key(self.view_entries(), key@),
    {
        let mut i: usize = 0;
        while i < self.entries.len()
            invariant
                i <= self.entries@.len(),
                forall|k: int| 0 <= k < i ==> self.view_entries()[k].0 != key@,
            decreases self.entries@.len() - i,
        {
            if self.entries[i].0 == *key {
                assert(self.view_entries()[i as int].0 == key@);
                return true;
            }
            i += 1;
        }
        false
    }

    /// The snapshots recorded under `key`, oldest first.
    pub fn snapshots(&self, key: &String) -> (r: Vec<User>)
        ensures
            r@.len() == snapshots_of(self.view_entries(), key@).len(),
            forall|i: int|
                0 <= i < r@.len() ==> same_user(#[trigger] r@[i], snapshots_of(self.view_entries(), key@)[i]),
    {
        let mut out: Vec<User> = Vec::new();
        let mut i: usize = 0;
        while i < self.entries.len()
            invariant
                i <= self.entries@.len(),
                out@.len() == snapshots_of(self.view_entries().subrange(0, i as int), key@).len(),
                forall|j: int|
                    0 <= j < out@.len() ==> same_user(#[trigger] out@[j], snapshots_of(self.view_entries().subrange(0, i as int), key@)[j]),
            decreases self.entries@.len() - i,
        {
            assert(self.view_entries().subrange(0, i + 1).drop_last() =~= self.view_entries().subrange(
                0,
                i as int,
            ));
            if self.entries[i].0 == *key {
                out.push(self.entries[i].1.duplicate());
            }
            i += 1;
        }
        assert(self.view_entries().subrange(0, i as int) =~= self.view_entries());
        out
    }
}

/// A name has snapshots exactly when the buffer holds it: the keys of the
/// snapshot map are the names in the buffer.
pub proof fn lemma_snapshot_keys(entries: Seq<(Seq<char>, User)>, key: Seq<char>)
    ensures
        snapshots_of(entries, key).len() > 0 <==> holds_key(entries, key),
    decreases entries.len(),
{
    if entries.len() > 0 {
        let pre = entries.drop_last();
        lemma_snapshot_keys(pre, key);
        if holds_key(pre, key) {
            let i = choose|i: int| 0 <= i < pre.len() && pre[i].0 == key;
            assert(entries[i] == pre[i]);
        }
        if holds_key(entries, key) && entries.last().0 != key {
            let i = choose|i: int| 0 <= i < entries.len() && entries[i].0 == key;
            assert(i < pre.len());
            assert(pre[i] == entries[i]);
        }
        if entries.last().0 == key {
            assert(entries[entries.len() - 1].0 == key);
        }
    }
}

} // verus!
