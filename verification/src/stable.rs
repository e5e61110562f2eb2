//! Trusted interface to the durable stores of `ic_stable_structures`.
//!
//! Each entity kind lives in one `StableBTreeMap` region of a shared
//! memory-manager arrangement, and the identifier counter in a `Cell`
//! region of its own. The structs here hold those collections opaquely;
//! the contracts state what the crate's own source shows of them.

use vstd::prelude::*;

use ic_stable_structures::memory_manager::{MemoryId, MemoryManager};
use ic_stable_structures::{Cell, DefaultMemoryImpl, StableBTreeMap};

verus! {

/// A durable ordered map from `u64` identifiers to serialized records,
/// held in one virtual region of the backing memory.
#[verifier::external_body]
pub struct ByteMap {
    inner: ic_stable_structures::StableBTreeMap<
        u64,
        Vec<u8>,
        ic_stable_structures::memory_manager::VirtualMemory<
            ic_stable_structures::DefaultMemoryImpl,
        >,
    >,
}

/// What a [`ByteMap`] holds: serialized records by identifier.
pub uninterp spec fn map_contents(m: ByteMap) -> Map<u64, Seq<u8>>;

/// A durable cell holding the shared identifier counter.
#[verifier::external_body]
pub struct IdCounter {
    inner: ic_stable_structures::Cell<
        u64,
        ic_stable_structures::memory_manager::VirtualMemory<
            ic_stable_structures::DefaultMemoryImpl,
        >,
    >,
}

/// What an [`IdCounter`] holds: the next identifier to hand out.
pub uninterp spec fn counter_value(c: IdCounter) -> u64;

/// The contents of a store that holds nothing.
pub open spec fn empty_contents() -> Map<u64, Seq<u8>> {
    Map::empty()
}

/// Relies on `MemoryManager::init`, `Cell::init` and `BTreeMap::init` of
/// `ic_stable_structures`: the counter cell takes the given initial value
/// and every map loads empty, each in a distinct virtual region.
///
/// These clauses hold because the body itself creates the backing memory
/// (`DefaultMemoryImpl::default()`), which on this crate's build targets is
/// a fresh, empty in-process vector memory. On a target where that default
/// names a persistent memory instead, `init` would reload whatever a
/// previous installation left there: there this contract describes the
/// first installation only, and the caller owes the single-install
/// assumption.
#[verifier::external_body]
pub(crate) fn fresh_stores(first_id: u64) -> (r: (IdCounter, ByteMap, ByteMap, ByteMap, ByteMap))
    ensures
        counter_value(r.0) == first_id,
        map_contents(r.1) == empty_contents(),
        map_contents(r.2) == empty_contents(),
        map_contents(r.3) == empty_contents(),
        map_contents(r.4) == empty_contents(),
{
    let mm = MemoryManager::init(DefaultMemoryImpl::default());
    let c = IdCounter { inner: Cell::init(mm.get(MemoryId::new(0)), first_id) };
    let s = ByteMap { inner: StableBTreeMap::init(mm.get(MemoryId::new(1))) };
    let l = ByteMap { inner: StableBTreeMap::init(mm.get(MemoryId::new(2))) };
    let a = ByteMap { inner: StableBTreeMap::init(mm.get(MemoryId::new(3))) };
    let m = ByteMap { inner: StableBTreeMap::init(mm.get(MemoryId::new(4))) };
    (c, s, l, a, m)
}

impl ByteMap {
    /// Relies on `BTreeMap::get`: returns the value stored under the key,
    /// or nothing when the key is absent.
    #[verifier::external_body]
    pub(crate) fn get(&self, key: u64) -> (r: Option<Vec<u8>>)
        ensures
            r matches Some(v) ==> map_contents(*self).contains_key(key) && v@ == map_contents(
                *self,
            )[key],
            r is None ==> !map_contents(*self).contains_key(key),
    {
        self.inner.get(&key)
    }

    /// Relies on `BTreeMap::insert`: stores the value under the key and
    /// returns the value previously stored there, if any.
    #[verifier::external_body]
    pub(crate) fn insert(&mut self, key: u64, value: Vec<u8>) -> (r: Option<Vec<u8>>)
        ensures
            map_contents(*final(self)) == map_contents(*old(self)).insert(key, value@),
            r matches Some(v) ==> map_contents(*old(self)).contains_key(key) && v@ == map_contents(
                *old(self),
            )[key],
            r is None ==> !map_contents(*old(self)).contains_key(key),
    {
        self.inner.insert(key, value)
    }

    /// Relies on `BTreeMap::remove`: drops the key and returns the value
    /// that was stored under it, if any.
    #[verifier::external_body]
    pub(crate) fn remove(&mut self, key: u64) -> (r: Option<Vec<u8>>)
        ensures
            map_contents(*final(self)) == map_contents(*old(self)).remove(key),
            r matches Some(v) ==> map_contents(*old(self)).contains_key(key) && v@ == map_contents(
                *old(self),
            )[key],
            r is None ==> !map_contents(*old(self)).contains_key(key),
    {
        self.inner.remove(&key)
    }

    /// Relies on `BTreeMap::iter`: yields every stored entry exactly once,
    /// in ascending key order.
    #[verifier::external_body]
    pub(crate) fn entries(&self) -> (r: Vec<(u64, Vec<u8>)>)
        ensures
            r@.len() == map_contents(*self).dom().len(),
            forall|i: int|
                0 <= i < r@.len() ==> map_contents(*self).contains_key(#[trigger] r@[i].0)
                    && r@[i].1@ == map_contents(*self)[r@[i].0],
            forall|k: u64|
                #[trigger] map_contents(*self).contains_key(k) ==> exists|i: int|
                    0 <= i < r@.len() && r@[i].0 == k,
            forall|i: int, j: int| 0 <= i < j < r@.len() ==> r@[i].0 < r@[j].0,
    {
        self.inner.iter().map(|e| e.into_pair()).collect()
    }
}

impl IdCounter {
    /// Relies on `Cell::get`: returns the stored counter value.
    #[verifier::external_body]
    pub(crate) fn get(&self) -> (r: u64)
        ensures
            r == counter_value(*self),
    {
        *self.inner.get()
    }

    /// Relies on `Cell::set`: stores the new value and returns the previous
    /// one; a `u64` always fits the cell's size limit, so the write cannot
    /// fail.
    #[verifier::external_body]
    pub(crate) fn set(&mut self, value: u64) -> (r: u64)
        ensures
            counter_value(*final(self)) == value,
            r == counter_value(*old(self)),
    {
        self.inner.set(value)
    }
}

} // verus!
