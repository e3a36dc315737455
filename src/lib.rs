//! A concurrency-safe key-value store whose entries may each hold a value of a
//! different type, checked against the requested type when they are read.

use std::borrow::Borrow;
use std::collections::HashMap;
use std::hash::Hash;
use std::sync::{Arc, RwLock, RwLockReadGuard, RwLockWriteGuard};

use vstd::prelude::*;
use vstd::std_specs::hash::{
    borrowed_key_removed, contains_borrowed_key, maps_borrowed_key_to_value, obeys_key_model,
};

pub mod erased;

pub use erased::{CacheItem, CacheObject, ErasedValue};

verus! {

broadcast use {
    vstd::std_specs::hash::group_hash_axioms,
    vstd::std_specs::hash::axiom_random_state_builds_valid_hashers,
};

pub type CacheResult<T> = Result<T, CacheError>;

/// What the store holds: for each key, either the empty marker or a cell.
pub type Slots<K> = HashMap<K, Option<CacheObject>>;

/// What can go wrong in a store operation.
#[derive(Debug, PartialEq, Eq, Structural)]
pub enum CacheError {
    /// The mapping lock could not be taken for reading (it was poisoned).
    ReadError,
    /// The mapping lock could not be taken for writing (it was poisoned).
    WriteError,
    /// `remove` on a key that is not in the store.
    NotFound,
    /// The value under the key is not of the requested type.
    ValueMismatch,
}

#[verifier::external_type_specification]
#[verifier::external_body]
#[verifier::reject_recursive_types(T)]
pub struct ExRwLock<T: ?Sized>(RwLock<T>);

#[verifier::external_type_specification]
#[verifier::external_body]
#[verifier::reject_recursive_types(T)]
pub struct ExRwLockReadGuard<'a, T: ?Sized>(RwLockReadGuard<'a, T>);

#[verifier::external_type_specification]
#[verifier::external_body]
#[verifier::reject_recursive_types(T)]
pub struct ExRwLockWriteGuard<'a, T: ?Sized + 'a>(RwLockWriteGuard<'a, T>);

/// Relies on `RwLock::new`: a lock around `value`.
#[verifier::external_body]
fn new_lock<X>(value: X) -> (r: RwLock<X>) {
    RwLock::new(value)
}

/// Relies on `RwLock::read`: a shared guard, or `None` when the lock is poisoned.
#[verifier::external_body]
fn lock_read<'a, X>(lock: &'a RwLock<X>) -> (r: Option<RwLockReadGuard<'a, X>>) {
    match lock.read() {
        Ok(guard) => Some(guard),
        Err(_) => None,
    }
}

/// Relies on `RwLock::write`: an exclusive guard, or `None` when the lock is poisoned.
#[verifier::external_body]
fn lock_write<'a, X>(lock: &'a RwLock<X>) -> (r: Option<RwLockWriteGuard<'a, X>>) {
    match lock.write() {
        Ok(guard) => Some(guard),
        Err(_) => None,
    }
}

/// Relies on `Deref` for `RwLockReadGuard`: the value under the shared lock.
#[verifier::external_body]
fn read_guarded<'a, 'b, X>(guard: &'a RwLockReadGuard<'b, X>) -> (r: &'a X) {
    &**guard
}

/// Relies on `DerefMut` for `RwLockWriteGuard`: the value under the exclusive lock.
#[verifier::external_body]
fn write_guarded<'a, 'b, X>(guard: &'a mut RwLockWriteGuard<'b, X>) -> (r: &'a mut X) {
    &mut **guard
}

/// The result of a typed read fits the slots `m` under `key`: "not found" only
/// when the key is absent, "present but empty" only for the empty marker, and a
/// handle or a type mismatch only where a value is stored.
pub open spec fn lookup_fits<K, Q: ?Sized, T>(
    m: Map<K, Option<CacheObject>>,
    key: &Q,
    r: CacheResult<Option<Option<Arc<T>>>>,
) -> bool {
    &&& r == Ok::<Option<Option<Arc<T>>>, CacheError>(None) ==> !contains_borrowed_key(m, key)
    &&& r matches Ok(Some(None)) ==> maps_borrowed_key_to_value(m, key, None::<CacheObject>)
    &&& (r matches Ok(Some(Some(_))) || r == Err::<Option<Option<Arc<T>>>, CacheError>(
        CacheError::ValueMismatch,
    )) ==> exists|o: CacheObject| maps_borrowed_key_to_value(m, key, Some(o))
    &&& r is Err ==> r == Err::<Option<Option<Arc<T>>>, CacheError>(CacheError::ValueMismatch)
}

/// The result of an insert, given the slot `prev` that was under the key before:
/// nothing when there was no value, the old handle or a type mismatch when there was.
pub open spec fn previous_fits<T>(
    prev: Option<Option<CacheObject>>,
    r: CacheResult<Option<Arc<T>>>,
) -> bool {
    match prev {
        Some(Some(_)) => r matches Ok(Some(_)) || r == Err::<Option<Arc<T>>, CacheError>(
            CacheError::ValueMismatch,
        ),
        _ => r == Ok::<Option<Arc<T>>, CacheError>(None),
    }
}

/// The result of a delete fits the slots `m` it was made on: done only where a
/// slot was under `key`, `NotFound` only where none was.
pub open spec fn delete_fits<K, Q: ?Sized>(m: Map<K, Option<CacheObject>>, key: &Q, r: CacheResult<()>) -> bool {
    match r {
        Ok(()) => exists|slot: Option<CacheObject>| maps_borrowed_key_to_value(m, key, slot),
        Err(e) => e == CacheError::NotFound && !contains_borrowed_key(m, key),
    }
}

/// Turns the outcome of a typed load into a read result: a handle when the stored
/// value has the requested type, a type mismatch when it does not.
pub fn from_downcast<T>(found: Option<Arc<T>>) -> (r: CacheResult<Option<Arc<T>>>)
    ensures
        r == match found {
            Some(h) => Ok::<Option<Arc<T>>, CacheError>(Some(h)),
            None => Err(CacheError::ValueMismatch),
        },
{
    match found {
        Some(value) => Ok(Some(value)),
        None => Err(CacheError::ValueMismatch),
    }
}

/// Reads a slot as a `T`: nothing for the empty marker, otherwise the stored handle
/// when the value is a `T` and a type mismatch when it is not.
pub fn downcast_object<T: 'static + CacheItem>(object: &Option<CacheObject>) -> (r: CacheResult<
    Option<Arc<T>>,
>)
    ensures
        previous_fits(Some(*object), r),
{
    match object {
        Some(object) => from_downcast(object.load().downcast::<T>()),
        None => Ok(None),
    }
}

/// The slot that storing `value` makes: a fresh cell holding it for `Some`, the
/// empty marker for `None`.
pub fn make_slot<T: 'static + CacheItem>(value: Option<T>) -> (r: Option<CacheObject>)
    ensures
        r is None <==> value is None,
{
    match value {
        Some(value) => Some(CacheObject::erase(value)),
        None => None,
    }
}

/// Reads what a lookup found as a `T`: nothing for an absent key, the empty marker
/// as it is, and for a value the handle when it is a `T`, a type mismatch when not.
pub fn read_found<T: 'static + CacheItem>(found: &Option<Option<ErasedValue>>) -> (r: CacheResult<
    Option<Option<Arc<T>>>,
>)
    ensures
        match *found {
            None => r == Ok::<Option<Option<Arc<T>>>, CacheError>(None),
            Some(None) => r == Ok::<Option<Option<Arc<T>>>, CacheError>(Some(None)),
            Some(Some(_)) => r matches Ok(Some(Some(_))) || r == Err::<
                Option<Option<Arc<T>>>,
                CacheError,
            >(CacheError::ValueMismatch),
        },
{
    match found {
        Some(Some(value)) => match from_downcast(value.downcast::<T>()) {
            Ok(value) => Ok(Some(value)),
            Err(e) => Err(e),
        },
        Some(None) => Ok(Some(None)),
        None => Ok(None),
    }
}

/// A store of values of any types that are safe to share between threads, keyed
/// by `K`. Clones are handles to the same storage.
#[derive(Clone)]
#[verifier::reject_recursive_types(K)]
pub struct Cache<K> {
    items: Arc<RwLock<Slots<K>>>,
}

impl<K: Eq + Hash> Cache<K> {
    /// An empty store.
    pub fn new() -> (r: Self) {
        Cache { items: Arc::new(new_lock(HashMap::new())) }
    }

    /// Finds the slot under `key` in `slots`: `None` when the key is absent,
    /// `Some(None)` for the empty marker, and the erased value that the cell holds
    /// now otherwise.
    pub fn locate<Q: ?Sized + Hash + Eq>(slots: &Slots<K>, key: &Q) -> (r: Option<
        Option<ErasedValue>,
    >) where K: Borrow<Q>
        ensures
            obeys_key_model::<K>() ==> match r {
                None => !contains_borrowed_key(slots@, key),
                Some(None) => maps_borrowed_key_to_value(slots@, key, None::<CacheObject>),
                Some(Some(_)) => exists|o: CacheObject|
                    maps_borrowed_key_to_value(slots@, key, Some(o)),
            },
    {
        match slots.get(key) {
            Some(Some(object)) => {
                proof {
                    if obeys_key_model::<K>() {
                        assert(maps_borrowed_key_to_value(slots@, key, Some(*object)));
                    }
                }
                Some(Some(object.load()))
            },
            Some(None) => Some(None),
            None => None,
        }
    }

    /// Looks `key` up in `slots` and reads what is there as a `T`: `None` when the
    /// key is absent, `Some(None)` for the empty marker, `Some(Some(handle))` when
    /// a `T` is stored and `ValueMismatch` when a value of another type is.
    pub fn lookup<T: 'static + CacheItem, Q: ?Sized + Hash + Eq>(slots: &Slots<K>, key: &Q) -> (r:
        CacheResult<Option<Option<Arc<T>>>>) where K: Borrow<Q>
        ensures
            obeys_key_model::<K>() ==> lookup_fits(slots@, key, r),
    {
        read_found(&Self::locate(slots, key))
    }

    /// Stores `slot` (a cell, or the empty marker) under `key` in `slots`, in place
    /// of whatever was there. Returns the previous value read as a `T`, or
    /// `ValueMismatch` when it was of another type (the new slot is stored either
    /// way).
    pub fn replace<T: 'static + CacheItem>(slots: &mut Slots<K>, key: K, slot: Option<CacheObject>) -> (r:
        CacheResult<Option<Arc<T>>>)
        ensures
            obeys_key_model::<K>() ==> final(slots)@ == old(slots)@.insert(key, slot),
            obeys_key_model::<K>() ==> previous_fits(old(slots)@.get(key), r),
    {
        match slots.insert(key, slot) {
            Some(object) => downcast_object::<T>(&object),
            None => Ok(None),
        }
    }

    /// Deletes `key` from `slots`, cell or empty marker alike; `NotFound` when the
    /// key is absent.
    pub fn delete<Q: ?Sized + Hash + Eq>(slots: &mut Slots<K>, key: &Q) -> (r: CacheResult<()>) where
        K: Borrow<Q>
        ensures
            obeys_key_model::<K>() ==> borrowed_key_removed(old(slots)@, final(slots)@, key),
            obeys_key_model::<K>() ==> delete_fits(old(slots)@, key, r),
    {
        match slots.remove(key) {
            Some(_) => Ok(()),
            None => Err(CacheError::NotFound),
        }
    }

    /// Reads the value under `key` as a `T`. The store may change under concurrent
    /// callers, so the result fits what the store held at the moment of the read
    /// (see `lookup`), or is `ReadError` when the lock is poisoned. The shared lock
    /// is held only to find the slot and load its value; the type check and the
    /// handle clone come after it is released.
    pub fn get<T: 'static + CacheItem, Q: ?Sized + Hash + Eq>(&self, key: &Q) -> (r: CacheResult<
        Option<Option<Arc<T>>>,
    >) where K: Borrow<Q>
        ensures
            obeys_key_model::<K>() ==> r == Err::<Option<Option<Arc<T>>>, CacheError>(
                CacheError::ReadError,
            ) || exists|
                m: Map<K, Option<CacheObject>>,
            | #[trigger] lookup_fits(m, key, r),
    {
        let ghost mut seen = Map::<K, Option<CacheObject>>::empty();
        let found = match lock_read(&*self.items) {
            Some(guard) => {
                let slots = read_guarded(&guard);
                proof {
                    seen = slots@;
                }
                Self::locate(slots, key)
            },
            None => {
                return Err(CacheError::ReadError);
            },
        };
        let r = read_found(&found);
        assert(obeys_key_model::<K>() ==> lookup_fits(seen, key, r));
        r
    }

    /// Stores `value` under `key` (the slot of `make_slot`, stored by `replace`)
    /// under the exclusive lock, and returns what was there before read as a `T`;
    /// `WriteError` when the lock is poisoned.
    pub fn insert<T: 'static + CacheItem>(&self, key: K, value: Option<T>) -> (r: CacheResult<
        Option<Arc<T>>,
    >)
        ensures
            obeys_key_model::<K>() ==> r == Err::<Option<Arc<T>>, CacheError>(CacheError::WriteError) || exists|
                prev: Option<Option<CacheObject>>,
            | #[trigger] previous_fits(prev, r),
    {
        let slot = make_slot(value);
        match lock_write(&*self.items) {
            Some(mut guard) => Self::replace::<T>(write_guarded(&mut guard), key, slot),
            None => Err(CacheError::WriteError),
        }
    }

    /// Deletes `key` from the store (see `delete`) under the exclusive lock;
    /// `NotFound` when it is absent, `WriteError` when the lock is poisoned.
    pub fn remove<Q: ?Sized + Hash + Eq>(&self, key: &Q) -> (r: CacheResult<()>) where K: Borrow<Q>
        ensures
            obeys_key_model::<K>() ==> r == Err::<(), CacheError>(CacheError::WriteError) || exists|
                m: Map<K, Option<CacheObject>>,
            | #[trigger] delete_fits(m, key, r),
    {
        match lock_write(&*self.items) {
            Some(mut guard) => Self::delete(write_guarded(&mut guard), key),
            None => Err(CacheError::WriteError),
        }
    }
}

impl<K: Eq + Hash> Default for Cache<K> {
    fn default() -> (r: Self) {
        Cache::new()
    }
}


/// A store that was never written to reads "not found" for every key, and
/// deleting any key from it fails with `NotFound`.
pub proof fn lemma_absent_before_insert<K, T>(
    k: K,
    r: CacheResult<Option<Option<Arc<T>>>>,
    d: CacheResult<()>,
)
    requires
        lookup_fits(Map::<K, Option<CacheObject>>::empty(), &k, r),
        delete_fits(Map::<K, Option<CacheObject>>::empty(), &k, d),
    ensures
        r == Ok::<Option<Option<Arc<T>>>, CacheError>(None),
        d == Err::<(), CacheError>(CacheError::NotFound),
{
}

/// Storing the empty marker under `k` makes a typed read of `k` give "present but
/// empty", which differs from the "not found" of an absent key.
pub proof fn lemma_empty_marker_is_not_absence<K, T>(
    m: Map<K, Option<CacheObject>>,
    k: K,
    r: CacheResult<Option<Option<Arc<T>>>>,
)
    requires
        lookup_fits(m.insert(k, None), &k, r),
    ensures
        r == Ok::<Option<Option<Arc<T>>>, CacheError>(Some(None)),
        r != Ok::<Option<Option<Arc<T>>>, CacheError>(None),
{
    assert(m.insert(k, None).contains_key(k));
}

/// Storing a cell under `k` makes a typed read of `k` find a value there: it gives
/// a handle or a type mismatch, never "not found" nor "present but empty". This
/// holds after any number of earlier stores under `k`.
pub proof fn lemma_inserted_value_is_present<K, T>(
    m: Map<K, Option<CacheObject>>,
    k: K,
    c: CacheObject,
    r: CacheResult<Option<Option<Arc<T>>>>,
)
    requires
        lookup_fits(m.insert(k, Some(c)), &k, r),
    ensures
        r matches Ok(Some(Some(_))) || r == Err::<Option<Option<Arc<T>>>, CacheError>(
            CacheError::ValueMismatch,
        ),
{
    assert(m.insert(k, Some(c)).contains_key(k));
}

/// Of two stores under `k`, the second one wins: `k` then holds the second slot,
/// every other key is as before, and the second store reports the first slot's
/// value (a handle or a type mismatch) when the first slot held one.
pub proof fn lemma_last_insert_wins<K, T>(
    m: Map<K, Option<CacheObject>>,
    k: K,
    s1: Option<CacheObject>,
    s2: Option<CacheObject>,
    r: CacheResult<Option<Arc<T>>>,
)
    requires
        previous_fits(m.insert(k, s1).get(k), r),
    ensures
        m.insert(k, s1).insert(k, s2)[k] == s2,
        m.insert(k, s1).insert(k, s2).remove(k) == m.remove(k),
        s1 is None ==> r == Ok::<Option<Arc<T>>, CacheError>(None),
        s1 is Some ==> (r matches Ok(Some(_)) || r == Err::<Option<Arc<T>>, CacheError>(
            CacheError::ValueMismatch,
        )),
{
    assert(m.insert(k, s1).insert(k, s2).remove(k) =~= m.remove(k));
}

/// After a store under `k` and a delete of `k`, a typed read of `k` gives "not
/// found" and a second delete of `k` fails with `NotFound`.
pub proof fn lemma_remove_clears_fully<K, T>(
    m: Map<K, Option<CacheObject>>,
    m2: Map<K, Option<CacheObject>>,
    k: K,
    slot: Option<CacheObject>,
    r: CacheResult<Option<Option<Arc<T>>>>,
    d: CacheResult<()>,
)
    requires
        borrowed_key_removed(m.insert(k, slot), m2, &k),
        lookup_fits(m2, &k, r),
        delete_fits(m2, &k, d),
    ensures
        r == Ok::<Option<Option<Arc<T>>>, CacheError>(None),
        d == Err::<(), CacheError>(CacheError::NotFound),
{
    assert(!m2.contains_key(k));
}

} // verus!
