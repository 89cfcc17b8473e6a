use vstd::prelude::*;
use crate::names::{acquired, distinct_ids, registered, NameIndex};

verus! {

/// Maps each backend identity to the handle of its own lifecycle lock.
/// Handle `h` stands for the `h`-th lock created; entries are never removed.
pub struct LockRegistry {
    index: NameIndex,
}

impl View for LockRegistry {
    type V = Seq<Seq<char>>;

    closed spec fn view(&self) -> Seq<Seq<char>> {
        self.index@
    }
}

impl LockRegistry {
    pub open spec fn wf(&self) -> bool {
        distinct_ids(self@)
    }

    pub fn new() -> (r: Self)
        ensures
            r@ == Seq::<Seq<char>>::empty(),
            r.wf(),
    {
        LockRegistry { index: NameIndex::new() }
    }

    /// Number of locks created so far.
    pub fn len(&self) -> (r: usize)
        ensures
            r == self@.len(),
    {
        self.index.len()
    }

    /// The handle of `id`'s lock, creating the lock on first request.
    /// Later requests for the same identity get the same handle, whatever
    /// other identities were added in between.
    pub fn lock_for(&mut self, id: &String) -> (h: usize)
        requires
            old(self).wf(),
            old(self)@.len() < usize::MAX,
        ensures
            final(self).wf(),
            acquired(old(self)@, id@, final(self)@, h as int),
    {
        self.index.intern(id)
    }
}

/// Two requests for one identity, with the registry left as the first one
/// left it, return the same lock.
pub proof fn lemma_same_identity_same_lock(
    s0: Seq<Seq<char>>,
    id: Seq<char>,
    s1: Seq<Seq<char>>,
    h1: int,
    s2: Seq<Seq<char>>,
    h2: int,
)
    requires
        distinct_ids(s0),
        acquired(s0, id, s1, h1),
        acquired(s1, id, s2, h2),
    ensures
        h1 == h2,
        s2 == s1,
{
    assert(s1.contains(id)) by {
        assert(s1[h1] == id);
    }
    if !s0.contains(id) {
        assert forall|i: int, j: int| 0 <= i < j < s1.len() implies s1[i] != s1[j] by {
            if j == s0.len() {
                assert(s1[i] == s0[i]);
                if s0[i] == id {
                    assert(s0.contains(id));
                }
            }
        }
    }
}

/// A handle stays bound to its identity when another identity gets a lock.
pub proof fn lemma_handle_survives_other_insertions(
    s0: Seq<Seq<char>>,
    x: Seq<char>,
    hx: int,
    y: Seq<char>,
    s1: Seq<Seq<char>>,
    hy: int,
)
    requires
        registered(s0, x, hx),
        acquired(s0, y, s1, hy),
    ensures
        registered(s1, x, hx),
{
    if !s0.contains(y) {
        assert(s1[hx] == s0[hx]);
    }
}

/// Distinct identities never share a lock, so lifecycle work on one never
/// waits on the other.
pub proof fn lemma_distinct_identities_distinct_locks(
    s: Seq<Seq<char>>,
    x: Seq<char>,
    hx: int,
    y: Seq<char>,
    hy: int,
)
    requires
        registered(s, x, hx),
        registered(s, y, hy),
        x != y,
    ensures
        hx != hy,
{
}

} // verus!
