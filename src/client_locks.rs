use vstd::prelude::*;
use std::sync::Arc;
use crate::lock_registry::LockRegistry;
use crate::names::{acquired, distinct_ids};
use crate::lock_registry::lemma_same_identity_same_lock;

verus! {

#[verifier::external_type_specification]
#[verifier::external_body]
#[verifier::reject_recursive_types(R)]
#[verifier::reject_recursive_types(T)]
pub struct ExLockApiMutex<R, T: ?Sized>(parking_lot::lock_api::Mutex<R, T>);

#[verifier::external_type_specification]
#[verifier::external_body]
pub struct ExRawMutex(parking_lot::RawMutex);

/// Relies on parking_lot::Mutex::new: a fresh, unlocked mutex, shared
/// through an Arc.
#[verifier::external_body]
fn new_lifecycle_lock() -> (r: Arc<parking_lot::Mutex<()>>) {
    Arc::new(parking_lot::Mutex::new(()))
}

/// Relies on Arc::clone: the new handle points at the same mutex.
#[verifier::external_body]
fn share(lock: &Arc<parking_lot::Mutex<()>>) -> (r: Arc<parking_lot::Mutex<()>>)
    ensures
        r == *lock,
{
    Arc::clone(lock)
}

/// Requesting the lock of `id` moved the pool from `(ids0, locks0)` to
/// `(ids1, locks1)` and returned `r`: the lock at `id`'s handle, with every
/// lock that existed before kept at its place.
pub open spec fn lock_granted(
    ids0: Seq<Seq<char>>,
    locks0: Seq<Arc<parking_lot::Mutex<()>>>,
    id: Seq<char>,
    ids1: Seq<Seq<char>>,
    locks1: Seq<Arc<parking_lot::Mutex<()>>>,
    r: Arc<parking_lot::Mutex<()>>,
) -> bool {
    &&& exists|h: int| acquired(ids0, id, ids1, h) && r == locks1[h]
    &&& locks0.len() <= locks1.len()
    &&& locks1.subrange(0, locks0.len() as int) == locks0
    &&& locks1.len() == ids1.len()
}

/// The lifecycle locks of the backends: one mutex per language id, made on
/// first request and kept for the life of the process.
pub struct ClientLocks {
    registry: LockRegistry,
    locks: Vec<Arc<parking_lot::Mutex<()>>>,
}

impl ClientLocks {
    pub closed spec fn ids(&self) -> Seq<Seq<char>> {
        self.registry@
    }

    pub closed spec fn locks(&self) -> Seq<Arc<parking_lot::Mutex<()>>> {
        self.locks@
    }

    pub open spec fn wf(&self) -> bool {
        &&& distinct_ids(self.ids())
        &&& self.locks().len() == self.ids().len()
    }

    pub fn new() -> (r: Self)
        ensures
            r.wf(),
            r.ids() == Seq::<Seq<char>>::empty(),
    {
        ClientLocks { registry: LockRegistry::new(), locks: Vec::new() }
    }

    /// The mutex that serializes lifecycle work on the backend of
    /// `language_id`; every request for one language id gets the same one.
    pub fn get_client_update_mutex(&mut self, language_id: &String) -> (r: Arc<parking_lot::Mutex<()>>)
        requires
            old(self).wf(),
            old(self).ids().len() < usize::MAX,
        ensures
            final(self).wf(),
            lock_granted(old(self).ids(), old(self).locks(), language_id@, final(self).ids(), final(self).locks(), r),
    {
        let h = self.registry.lock_for(language_id);
        if h == self.locks.len() {
            self.locks.push(new_lifecycle_lock());
        }
        let r = share(&self.locks[h]);
        assert(self.locks@.subrange(0, old(self).locks@.len() as int) =~= old(self).locks@);
        r
    }
}

/// Two requests for one language id, one after the other, get the same mutex.
pub proof fn lemma_same_language_same_mutex(
    ids0: Seq<Seq<char>>,
    locks0: Seq<Arc<parking_lot::Mutex<()>>>,
    id: Seq<char>,
    ids1: Seq<Seq<char>>,
    locks1: Seq<Arc<parking_lot::Mutex<()>>>,
    r1: Arc<parking_lot::Mutex<()>>,
    ids2: Seq<Seq<char>>,
    locks2: Seq<Arc<parking_lot::Mutex<()>>>,
    r2: Arc<parking_lot::Mutex<()>>,
)
    requires
        distinct_ids(ids0),
        lock_granted(ids0, locks0, id, ids1, locks1, r1),
        lock_granted(ids1, locks1, id, ids2, locks2, r2),
    ensures
        r1 == r2,
{
    let h1 = choose|h: int| acquired(ids0, id, ids1, h) && r1 == locks1[h];
    let h2 = choose|h: int| acquired(ids1, id, ids2, h) && r2 == locks2[h];
    lemma_same_identity_same_lock(ids0, id, ids1, h1, ids2, h2);
    assert(locks2.subrange(0, locks1.len() as int)[h1] == locks2[h1]);
}

} // verus!
