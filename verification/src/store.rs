//! The durable layer: an ordered durable map from identifier to encoded
//! record bytes, and a durable counter cell, each in its own partition of
//! one durable memory. Both live in `ic_stable_structures` collections,
//! held behind opaque structs; their contents are named by uninterpreted
//! spec functions, and every method the logic calls goes through a trusted
//! wrapper whose contract states what the crate's source shows.
use vstd::prelude::*;
use ic_stable_structures::memory_manager::{MemoryId, MemoryManager, VirtualMemory};
use ic_stable_structures::{BTreeMap, Cell, DefaultMemoryImpl};

verus! {

/// The durable ordered map from identifier to encoded record bytes,
/// stored in its own partition. Opaque to the verifier; its contents are
/// named by `record_bytes`.
#[verifier::external_body]
pub struct StableRecordMap {
    map: BTreeMap<u64, Vec<u8>, VirtualMemory<DefaultMemoryImpl>>,
}

/// The durable counter cell of the identifier allocator, stored in its
/// own partition. Opaque to the verifier; its value is named by
/// `counter_value`.
#[verifier::external_body]
pub struct StableCounter {
    cell: Cell<u64, VirtualMemory<DefaultMemoryImpl>>,
}

/// What the durable map holds: each stored key with its value bytes.
pub uninterp spec fn record_bytes(m: StableRecordMap) -> Map<u64, Seq<u8>>;

/// What the durable counter cell holds.
pub uninterp spec fn counter_value(c: StableCounter) -> u64;

/// The two durable structures over one partitioned durable memory.
struct Backing {
    counter: StableCounter,
    records: StableRecordMap,
}

/// A backing as first created: counter at zero, no records.
spec fn backing_fresh(b: Backing) -> bool {
    counter_value(b.counter) == 0 && record_bytes(b.records) == Map::<u64, Seq<u8>>::empty()
}

/// Relies on `MemoryManager::init` and `get`, `Cell::init` and
/// `BTreeMap::init` of `ic_stable_structures`, over a freshly created
/// `DefaultMemoryImpl` (in this build, a new zero-length in-heap vector
/// memory): on never-written partitions, `Cell::init` takes its default
/// value and `BTreeMap::init` creates an empty map.
#[verifier::external_body]
fn init_backing() -> (r: Backing)
    ensures
        backing_fresh(r),
{
    let manager = MemoryManager::init(DefaultMemoryImpl::default());
    let cell = Cell::init(manager.get(MemoryId::new(0)), 0u64);
    let map = BTreeMap::init(manager.get(MemoryId::new(1)));
    Backing { counter: StableCounter { cell }, records: StableRecordMap { map } }
}

/// Relies on `BTreeMap::get`: returns the value stored under the key, if
/// any, without side effects.
#[verifier::external_body]
fn record_map_get(m: &StableRecordMap, id: u64) -> (r: Option<Vec<u8>>)
    ensures
        (match r {
            Option::Some(v) => record_bytes(*m).contains_key(id) && v@ == record_bytes(*m)[id],
            Option::None => !record_bytes(*m).contains_key(id),
        }),
{
    m.map.get(&id)
}

/// Relies on `BTreeMap::insert`: stores the value under the key,
/// replacing and returning the previous value if one was present.
#[verifier::external_body]
fn record_map_insert(m: &mut StableRecordMap, id: u64, value: Vec<u8>) -> (r: Option<Vec<u8>>)
    ensures
        record_bytes(*final(m)) == record_bytes(*old(m)).insert(id, value@),
        (match r {
            Option::Some(v) => record_bytes(*old(m)).contains_key(id) && v@ == record_bytes(
                *old(m),
            )[id],
            Option::None => !record_bytes(*old(m)).contains_key(id),
        }),
{
    m.map.insert(id, value)
}

/// Relies on `BTreeMap::remove`: deletes the entry under the key and
/// returns the value that was removed, if one was present.
#[verifier::external_body]
fn record_map_remove(m: &mut StableRecordMap, id: u64) -> (r: Option<Vec<u8>>)
    ensures
        record_bytes(*final(m)) == record_bytes(*old(m)).remove(id),
        (match r {
            Option::Some(v) => record_bytes(*old(m)).contains_key(id) && v@ == record_bytes(
                *old(m),
            )[id],
            Option::None => !record_bytes(*old(m)).contains_key(id),
        }),
{
    m.map.remove(&id)
}

/// Relies on `Cell::get`: returns the current value in the cell.
#[verifier::external_body]
fn counter_get(c: &StableCounter) -> (r: u64)
    ensures
        r == counter_value(*c),
{
    *c.cell.get()
}

/// Relies on `Cell::set`: persists the new value and returns the
/// previous one.
#[verifier::external_body]
fn counter_set(c: &mut StableCounter, v: u64) -> (r: u64)
    ensures
        counter_value(*final(c)) == v,
        r == counter_value(*old(c)),
{
    c.cell.set(v)
}

/// The identifier allocator: a durable single-value counter returning a
/// fresh strictly increasing identifier per request.
pub struct IdAllocator {
    counter: StableCounter,
}

impl IdAllocator {
    /// The identifier most recently handed out; zero before the first.
    pub closed spec fn last_id(self) -> u64 {
        counter_value(self.counter)
    }

    /// Reads the counter without changing it.
    pub fn current(&self) -> (id: u64)
        ensures
            id == self.last_id(),
    {
        counter_get(&self.counter)
    }

    /// Atomically reads, increments, persists and returns the counter.
    pub fn next_id(&mut self) -> (id: u64)
        requires
            old(self).last_id() < u64::MAX,
        ensures
            id == old(self).last_id() + 1,
            final(self).last_id() == id,
    {
        let current = counter_get(&self.counter);
        let fresh = current + 1;
        counter_set(&mut self.counter, fresh);
        fresh
    }
}

/// The record store: point lookup, insert/overwrite and removal of
/// encoded records, keyed by identifier.
pub struct RecordStore {
    map: StableRecordMap,
}

impl RecordStore {
    /// The stored bytes, keyed by identifier.
    pub closed spec fn contents(self) -> Map<u64, Seq<u8>> {
        record_bytes(self.map)
    }

    /// Looks up the bytes stored under `id`; no side effects.
    pub fn get(&self, id: u64) -> (r: Option<Vec<u8>>)
        ensures
            (match r {
                Option::Some(v) => self.contents().contains_key(id) && v@ == self.contents()[id],
                Option::None => !self.contents().contains_key(id),
            }),
    {
        record_map_get(&self.map, id)
    }

    /// Stores `value` under `id`, overwriting any previous value.
    pub fn insert(&mut self, id: u64, value: Vec<u8>)
        ensures
            final(self).contents() == old(self).contents().insert(id, value@),
    {
        record_map_insert(&mut self.map, id, value);
    }

    /// Deletes the entry under `id` and returns the removed bytes, if any.
    pub fn remove(&mut self, id: u64) -> (r: Option<Vec<u8>>)
        ensures
            final(self).contents() == old(self).contents().remove(id),
            (match r {
                Option::Some(v) => old(self).contents().contains_key(id) && v@ == old(
                    self,
                ).contents()[id],
                Option::None => !old(self).contents().contains_key(id),
            }),
    {
        record_map_remove(&mut self.map, id)
    }
}

/// Creates the two durable partitions over one fresh durable memory and
/// the structures on them: the allocator at partition zero, the record
/// store at partition one.
pub fn init_storage() -> (r: (IdAllocator, RecordStore))
    ensures
        r.0.last_id() == 0,
        r.1.contents() == Map::<u64, Seq<u8>>::empty(),
{
    let backing = init_backing();
    (IdAllocator { counter: backing.counter }, RecordStore { map: backing.records })
}

} // verus!
