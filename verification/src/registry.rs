//! The handle-based configuration registry.
//!
//! The registry stores values under numeric handles together with the name
//! of their type and their size; reads and deletes name the type they expect
//! and are refused when it differs. It keeps statistics of its operations,
//! startup flags fixed at creation and runtime flags that can be switched.

use vstd::prelude::*;
use vstd::hash_map::HashMapWithView;
use core::marker::PhantomData;
use crate::config_flags::{runtime_flags_known, is_valid_runtime_flag};
use crate::errors::{FluentError, HandleId, RegistryError, same_error};
use crate::stats::{RegistryStats, sat_add, sat_sub};
use crate::text::str_equal;

verus! {

/// A typed handle to data in a registry.
#[verifier::reject_recursive_types(T)]
#[derive(Debug)]
pub struct ConfigHandle<T> {
    id: HandleId,
    _phantom: PhantomData<T>,
}

impl<T> ConfigHandle<T> {
    /// The identifier of the handle.
    pub closed spec fn handle_id(&self) -> HandleId {
        self.id
    }

    /// A handle for the identifier `id`.
    pub fn new(id: HandleId) -> (r: Self)
        ensures
            r.handle_id() == id,
    {
        ConfigHandle { id, _phantom: PhantomData }
    }

    /// The identifier of the handle.
    pub fn id(&self) -> (r: HandleId)
        ensures
            r == self.handle_id(),
    {
        self.id
    }
}

/// Stored data with the name of its type and its size in bytes.
#[verifier::reject_recursive_types(V)]
#[derive(Debug)]
pub struct ConfigEntry<V> {
    /// The stored data
    pub data: V,
    /// The name of the data's type
    pub type_label: String,
    /// The size of the data in bytes
    pub data_size: u64,
}

/// What reading a handle of a given type finds.
pub enum Lookup<V> {
    /// The data
    Found(V),
    /// No data under the handle
    Missing,
    /// Data of another type, with that type's name
    OtherType(Seq<char>),
}

/// What reading `id` as type `ty` finds among `entries`.
pub open spec fn lookup<V>(entries: Map<u64, ConfigEntry<V>>, id: u64, ty: Seq<char>) -> Lookup<V> {
    if !entries.contains_key(id) {
        Lookup::Missing
    } else if entries[id].type_label@ != ty {
        Lookup::OtherType(entries[id].type_label@)
    } else {
        Lookup::Found(entries[id].data)
    }
}

impl<V> ConfigEntry<V> {
    /// An entry for `data` of the type named `type_label`, `data_size` bytes large.
    pub fn new(data: V, type_label: &str, data_size: u64) -> (r: Self)
        ensures
            r.data == data,
            r.type_label@ == type_label@,
            r.data_size == data_size,
    {
        ConfigEntry { data, type_label: type_label.to_owned(), data_size }
    }

    /// The data, when its type is the one named `expected_type`; otherwise a
    /// wrong-type error with handle 0 (the caller fills in the handle).
    pub fn get_arc_data(&self, expected_type: &str) -> (r: Result<&V, RegistryError>)
        ensures
            self.type_label@ == expected_type@ ==> (r matches Ok(d) && *d == self.data),
            self.type_label@ != expected_type@ ==> (r matches Err(RegistryError::WrongType { handle_id, expected, found })
                && handle_id == 0 && expected@ == expected_type@ && found@ == self.type_label@),
    {
        if !str_equal(self.type_label.as_str(), expected_type) {
            return Err(
                RegistryError::WrongType {
                    handle_id: 0,
                    expected: expected_type.to_owned(),
                    found: self.type_label.as_str().to_owned(),
                },
            );
        }
        Ok(&self.data)
    }
}

/// The identifier after `n` (0 after `u64::MAX`).
pub open spec fn next_id_after(n: u64) -> u64 {
    if n == u64::MAX { 0 } else { (n + 1) as u64 }
}

/// Statistics after one create of `size` bytes.
pub open spec fn stats_after_create(s: RegistryStats, size: u64) -> RegistryStats {
    RegistryStats {
        total_creates: sat_add(s.total_creates, 1),
        total_handles: sat_add(s.total_handles, 1),
        memory_usage_bytes: sat_add(s.memory_usage_bytes, size),
        ..s
    }
}

/// Statistics after one read.
pub open spec fn stats_after_read(s: RegistryStats) -> RegistryStats {
    RegistryStats { total_reads: sat_add(s.total_reads, 1), ..s }
}

/// Statistics after one update from `old_size` to `new_size` bytes.
pub open spec fn stats_after_update(s: RegistryStats, old_size: u64, new_size: u64) -> RegistryStats {
    RegistryStats {
        total_updates: sat_add(s.total_updates, 1),
        memory_usage_bytes: sat_add(sat_sub(s.memory_usage_bytes, old_size), new_size),
        ..s
    }
}

/// Statistics after one delete of `size` bytes.
pub open spec fn stats_after_delete(s: RegistryStats, size: u64) -> RegistryStats {
    RegistryStats {
        total_deletes: sat_add(s.total_deletes, 1),
        total_handles: sat_sub(s.total_handles, 1),
        memory_usage_bytes: sat_sub(s.memory_usage_bytes, size),
        ..s
    }
}

/// A registry of configuration data of the value type `V`.
#[verifier::reject_recursive_types(V)]
pub struct ConfigRegistry<V> {
    entries: HashMapWithView<u64, ConfigEntry<V>>,
    next_id: u64,
    stats: RegistryStats,
    startup_flags: u32,
    runtime_flags: u64,
    collected_errors: Vec<FluentError>,
}

impl<V> ConfigRegistry<V> {
    /// The stored entries by handle.
    pub closed spec fn entries(&self) -> Map<u64, ConfigEntry<V>> {
        self.entries@
    }

    /// The identifier the next create hands out.
    pub closed spec fn next_handle(&self) -> u64 {
        self.next_id
    }

    /// The statistics of the operations so far.
    pub closed spec fn statistics(&self) -> RegistryStats {
        self.stats
    }

    /// The startup flags.
    pub closed spec fn startup(&self) -> u32 {
        self.startup_flags
    }

    /// The runtime flags.
    pub closed spec fn runtime(&self) -> u64 {
        self.runtime_flags
    }

    /// The number of collected errors.
    pub closed spec fn error_count(&self) -> nat {
        self.collected_errors@.len()
    }

    /// The collected errors, oldest first.
    pub closed spec fn collected(&self) -> Seq<FluentError> {
        self.collected_errors@
    }

    /// An empty registry with no startup flag.
    pub fn new() -> (r: Self)
        ensures
            r.entries() == Map::<u64, ConfigEntry<V>>::empty(),
            r.next_handle() == 1,
            r.statistics() == RegistryStats::zero(),
            r.startup() == 0,
            r.runtime() == 0,
            r.error_count() == 0,
    {
        Self::custom(0)
    }

    /// An empty registry with the given startup flags.
    pub fn custom(startup_flags: u32) -> (r: Self)
        ensures
            r.entries() == Map::<u64, ConfigEntry<V>>::empty(),
            r.next_handle() == 1,
            r.statistics() == RegistryStats::zero(),
            r.startup() == startup_flags,
            r.runtime() == 0,
            r.error_count() == 0,
    {
        broadcast use vstd::std_specs::hash::group_hash_axioms;
        ConfigRegistry {
            entries: HashMapWithView::new(),
            next_id: 1,
            stats: RegistryStats::new(),
            startup_flags,
            runtime_flags: 0,
            collected_errors: Vec::new(),
        }
    }

    /// Switches on the runtime flags `flags`; flags with an unknown bit are
    /// ignored.
    pub fn enable(self, flags: u64) -> (r: Self)
        ensures
            r.runtime() == if runtime_flags_known(flags) { self.runtime() | flags } else { self.runtime() },
            r.entries() == self.entries(),
            r.next_handle() == self.next_handle(),
            r.statistics() == self.statistics(),
            r.startup() == self.startup(),
            r.error_count() == self.error_count(),
    {
        if !is_valid_runtime_flag(flags) {
            return self;
        }
        let mut r = self;
        r.runtime_flags = r.runtime_flags | flags;
        r
    }

    /// Switches off the runtime flags `flags`; flags with an unknown bit are
    /// ignored.
    pub fn disable(self, flags: u64) -> (r: Self)
        ensures
            r.runtime() == if runtime_flags_known(flags) { self.runtime() & !flags } else { self.runtime() },
            r.entries() == self.entries(),
            r.next_handle() == self.next_handle(),
            r.statistics() == self.statistics(),
            r.startup() == self.startup(),
            r.error_count() == self.error_count(),
    {
        if !is_valid_runtime_flag(flags) {
            return self;
        }
        let mut r = self;
        r.runtime_flags = r.runtime_flags & !flags;
        r
    }

    /// Whether any of the startup flags `flags` is set.
    pub fn startup_enabled(&self, flags: u32) -> (r: bool)
        ensures
            r == (self.startup() & flags != 0),
    {
        self.startup_flags & flags != 0
    }

    /// Whether none of the startup flags `flags` is set.
    pub fn startup_disabled(&self, flags: u32) -> (r: bool)
        ensures
            r == (self.startup() & flags == 0),
    {
        !self.startup_enabled(flags)
    }

    /// Whether any of the runtime flags `flags` is set.
    pub fn runtime_enabled(&self, flags: u64) -> (r: bool)
        ensures
            r == (self.runtime() & flags != 0),
    {
        self.runtime_flags & flags != 0
    }

    /// Whether none of the runtime flags `flags` is set.
    pub fn runtime_disabled(&self, flags: u64) -> (r: bool)
        ensures
            r == (self.runtime() & flags == 0),
    {
        !self.runtime_enabled(flags)
    }

    /// The startup flags.
    pub fn get_startup_flags(&self) -> (r: u32)
        ensures
            r == self.startup(),
    {
        self.startup_flags
    }

    /// The runtime flags.
    pub fn get_runtime_flags(&self) -> (r: u64)
        ensures
            r == self.runtime(),
    {
        self.runtime_flags
    }

    /// Stores `data` of the type named `type_label`, `data_size` bytes large,
    /// under the next identifier, and returns a handle to it.
    pub fn create<T>(&mut self, data: V, type_label: &str, data_size: u64) -> (r: Result<
        ConfigHandle<T>,
        RegistryError,
    >)
        ensures
            r matches Ok(h) && h.handle_id() == old(self).next_handle(),
            final(self).entries() == old(self).entries().insert(
                old(self).next_handle(),
                ConfigEntry { data, type_label: final(self).entries()[old(self).next_handle()].type_label, data_size },
            ),
            final(self).entries()[old(self).next_handle()].type_label@ == type_label@,
            final(self).next_handle() == next_id_after(old(self).next_handle()),
            final(self).statistics() == stats_after_create(old(self).statistics(), data_size),
            final(self).startup() == old(self).startup(),
            final(self).runtime() == old(self).runtime(),
            final(self).error_count() == old(self).error_count(),
    {
        let id = self.next_id;
        self.next_id = if id == u64::MAX { 0 } else { id + 1 };
        let entry = ConfigEntry::new(data, type_label, data_size);
        self.entries.insert(id, entry);
        self.stats.increment_creates();
        self.stats.add_memory(data_size);
        Ok(ConfigHandle::new(id))
    }

    /// Reads the data under `handle` as the type named `expected_type`.
    ///
    /// A missing handle is refused and not counted; a read of a present
    /// handle is counted, and refused when the stored type differs.
    pub fn read<T>(&mut self, handle: &ConfigHandle<T>, expected_type: &str) -> (r: Result<&V, RegistryError>)
        ensures
            match lookup(old(self).entries(), handle.handle_id(), expected_type@) {
                Lookup::Found(d) => r matches Ok(v) && *v == d,
                Lookup::Missing => r matches Err(RegistryError::HandleNotFound { handle_id })
                    && handle_id == handle.handle_id(),
                Lookup::OtherType(found_type) => r matches Err(RegistryError::WrongType { handle_id, expected, found })
                    && handle_id == handle.handle_id() && expected@ == expected_type@ && found@ == found_type,
            },
            final(self).entries() == old(self).entries(),
            final(self).statistics() == if old(self).entries().contains_key(handle.handle_id()) {
                stats_after_read(old(self).statistics())
            } else {
                old(self).statistics()
            },
            final(self).next_handle() == old(self).next_handle(),
            final(self).startup() == old(self).startup(),
            final(self).runtime() == old(self).runtime(),
            final(self).error_count() == old(self).error_count(),
    {
        let id = handle.id();
        if !self.entries.contains_key(&id) {
            return Err(RegistryError::HandleNotFound { handle_id: id });
        }
        self.stats.increment_reads();
        let entry = self.entries.get(&id).unwrap();
        match entry.get_arc_data(expected_type) {
            Ok(d) => Ok(d),
            Err(RegistryError::WrongType { handle_id: _, expected, found }) => Err(
                RegistryError::WrongType { handle_id: id, expected, found },
            ),
            Err(e) => Err(e),
        }
    }

    /// Replaces the data under `handle` with `new_data` of the type named
    /// `type_label`, `data_size` bytes large. A missing handle is refused and
    /// nothing changes.
    pub fn update<T>(&mut self, handle: &ConfigHandle<T>, new_data: V, type_label: &str, data_size: u64) -> (r: Result<
        (),
        RegistryError,
    >)
        ensures
            !old(self).entries().contains_key(handle.handle_id()) ==> (r matches Err(
                RegistryError::HandleNotFound { handle_id },
            ) && handle_id == handle.handle_id() && final(self).entries() == old(self).entries()
                && final(self).statistics() == old(self).statistics()),
            old(self).entries().contains_key(handle.handle_id()) ==> {
                &&& r is Ok
                &&& final(self).entries() == old(self).entries().insert(
                    handle.handle_id(),
                    ConfigEntry {
                        data: new_data,
                        type_label: final(self).entries()[handle.handle_id()].type_label,
                        data_size,
                    },
                )
                &&& final(self).entries()[handle.handle_id()].type_label@ == type_label@
                &&& final(self).statistics() == stats_after_update(
                    old(self).statistics(),
                    old(self).entries()[handle.handle_id()].data_size,
                    data_size,
                )
            },
            final(self).next_handle() == old(self).next_handle(),
            final(self).startup() == old(self).startup(),
            final(self).runtime() == old(self).runtime(),
            final(self).error_count() == old(self).error_count(),
    {
        let id = handle.id();
        let old_entry = match self.entries.remove(&id) {
            None => {
                return Err(RegistryError::HandleNotFound { handle_id: id });
            },
            Some(e) => e,
        };
        let old_size = old_entry.data_size;
        let new_entry = ConfigEntry::new(new_data, type_label, data_size);
        self.entries.insert(id, new_entry);
        proof {
            assert(old(self).entries().remove(id).insert(id, self.entries()[id]) =~= old(self).entries().insert(
                id,
                self.entries()[id],
            ));
        }
        self.stats.increment_updates();
        self.stats.remove_memory(old_size);
        self.stats.add_memory(data_size);
        Ok(())
    }

    /// Removes the data under `handle` and returns it as the type named
    /// `expected_type`.
    ///
    /// A missing handle is refused and nothing changes. Data of another type
    /// is removed all the same and refused, and the delete is not counted.
    pub fn delete<T>(&mut self, handle: &ConfigHandle<T>, expected_type: &str) -> (r: Result<V, RegistryError>)
        ensures
            match lookup(old(self).entries(), handle.handle_id(), expected_type@) {
                Lookup::Found(d) => r matches Ok(v) && v == d,
                Lookup::Missing => r matches Err(RegistryError::HandleNotFound { handle_id })
                    && handle_id == handle.handle_id(),
                Lookup::OtherType(found_type) => r matches Err(RegistryError::WrongType { handle_id, expected, found })
                    && handle_id == handle.handle_id() && expected@ == expected_type@ && found@ == found_type,
            },
            final(self).entries() == old(self).entries().remove(handle.handle_id()),
            final(self).statistics() == if r is Ok {
                stats_after_delete(old(self).statistics(), old(self).entries()[handle.handle_id()].data_size)
            } else {
                old(self).statistics()
            },
            final(self).next_handle() == old(self).next_handle(),
            final(self).startup() == old(self).startup(),
            final(self).runtime() == old(self).runtime(),
            final(self).error_count() == old(self).error_count(),
    {
        let id = handle.id();
        let entry = match self.entries.remove(&id) {
            None => {
                proof {
                    assert(old(self).entries().remove(id) =~= old(self).entries());
                }
                return Err(RegistryError::HandleNotFound { handle_id: id });
            },
            Some(e) => e,
        };
        if !str_equal(entry.type_label.as_str(), expected_type) {
            return Err(
                RegistryError::WrongType {
                    handle_id: id,
                    expected: expected_type.to_owned(),
                    found: entry.type_label,
                },
            );
        }
        self.stats.increment_deletes();
        self.stats.remove_memory(entry.data_size);
        Ok(entry.data)
    }

    /// The statistics of the operations so far.
    pub fn stats(&self) -> (r: RegistryStats)
        ensures
            r == self.statistics(),
    {
        self.stats
    }

    /// Whether data is stored under `handle`.
    pub fn contains_handle<T>(&self, handle: &ConfigHandle<T>) -> (r: bool)
        ensures
            r == self.entries().contains_key(handle.handle_id()),
    {
        self.entries.contains_key(&handle.id())
    }

    /// Removes all data and resets the statistics.
    pub fn clear(&mut self)
        ensures
            final(self).entries() == Map::<u64, ConfigEntry<V>>::empty(),
            final(self).statistics() == RegistryStats::zero(),
            final(self).next_handle() == old(self).next_handle(),
            final(self).startup() == old(self).startup(),
            final(self).runtime() == old(self).runtime(),
            final(self).error_count() == old(self).error_count(),
    {
        self.entries.clear();
        self.stats.reset();
    }

    /// The number of stored entries.
    pub fn len(&self) -> (r: usize)
        ensures
            r == self.entries().len(),
    {
        self.entries.len()
    }

    /// Whether no entry is stored.
    pub fn is_empty(&self) -> (r: bool)
        ensures
            r == (self.entries().len() == 0),
    {
        self.entries.len() == 0
    }

    /// Takes the collected errors out, leaving none.
    pub fn catch(&mut self) -> (r: Vec<FluentError>)
        ensures
            r@ == old(self).collected(),
            r@.len() == old(self).error_count(),
            final(self).error_count() == 0,
            final(self).entries() == old(self).entries(),
            final(self).statistics() == old(self).statistics(),
            final(self).next_handle() == old(self).next_handle(),
            final(self).startup() == old(self).startup(),
            final(self).runtime() == old(self).runtime(),
    {
        let mut taken: Vec<FluentError> = Vec::new();
        std::mem::swap(&mut taken, &mut self.collected_errors);
        taken
    }

    /// Copies of the collected errors.
    pub fn errors(&self) -> (r: Vec<FluentError>)
        ensures
            r@.len() == self.error_count(),
            forall|i: int| 0 <= i < r@.len() ==> same_error(#[trigger] r@[i], self.collected()[i]),
    {
        let mut out: Vec<FluentError> = Vec::new();
        let mut i: usize = 0;
        while i < self.collected_errors.len()
            invariant
                i <= self.collected_errors@.len(),
                out@.len() == i,
                forall|j: int| 0 <= j < i ==> same_error(#[trigger] out@[j], self.collected_errors@[j]),
            decreases self.collected_errors@.len() - i,
        {
            out.push(self.collected_errors[i].duplicate());
            i = i + 1;
        }
        out
    }

    /// Whether any error has been collected.
    pub fn has_errors(&self) -> (r: bool)
        ensures
            r == (self.error_count() > 0),
    {
        self.collected_errors.len() > 0
    }
}


/// Reading a handle right after storing an entry under it, as the entry's
/// type, gives the stored data (what create and update promise).
pub proof fn law_read_after_write<V>(entries: Map<u64, ConfigEntry<V>>, id: u64, e: ConfigEntry<V>)
    ensures
        lookup(entries.insert(id, e), id, e.type_label@) == Lookup::Found(e.data),
{
}

/// Reading a handle as another type than the stored one is refused with the
/// stored type's name.
pub proof fn law_read_other_type<V>(entries: Map<u64, ConfigEntry<V>>, id: u64, e: ConfigEntry<V>, ty: Seq<char>)
    requires
        ty != e.type_label@,
    ensures
        lookup(entries.insert(id, e), id, ty) == Lookup::<V>::OtherType(e.type_label@),
{
}

/// Storing under one handle leaves what every other handle reads unchanged.
pub proof fn law_write_isolated<V>(
    entries: Map<u64, ConfigEntry<V>>,
    id: u64,
    e: ConfigEntry<V>,
    other: u64,
    ty: Seq<char>,
)
    requires
        other != id,
    ensures
        lookup(entries.insert(id, e), other, ty) == lookup(entries, other, ty),
{
}

/// After a handle is deleted, reading it finds nothing, whatever the type;
/// the other handles read as before.
pub proof fn law_read_after_delete<V>(entries: Map<u64, ConfigEntry<V>>, id: u64, ty: Seq<char>, other: u64)
    requires
        other != id,
    ensures
        lookup(entries.remove(id), id, ty) == Lookup::<V>::Missing,
        lookup(entries.remove(id), other, ty) == lookup(entries, other, ty),
{
}

/// After a clear, every handle reads as missing.
pub proof fn law_read_after_clear<V>(id: u64, ty: Seq<char>)
    ensures
        lookup(Map::<u64, ConfigEntry<V>>::empty(), id, ty) == Lookup::<V>::Missing,
{
}

/// Handles are handed out in sequence: a new registry's first handle is 1,
/// and each create hands out the identifier after the previous one.
pub proof fn law_handles_in_sequence(first: u64, second: u64)
    requires
        first == 1,
        second == next_id_after(first),
    ensures
        second == 2,
{
}

/// Enabling known runtime flags makes each of them enabled; disabling them
/// makes each disabled; the other flags keep their state.
pub proof fn law_enable_disable(flags: u64, before: u64, bit: u64)
    ensures
        flags & bit != 0 ==> (before | flags) & bit != 0,
        flags & bit == 0 ==> ((before | flags) & bit == before & bit),
        flags & bit == bit ==> (before & !flags) & bit == 0,
        flags & bit == 0 ==> ((before & !flags) & bit == before & bit),
{
    assert(flags & bit != 0 ==> (before | flags) & bit != 0) by (bit_vector);
    assert(flags & bit == 0 ==> ((before | flags) & bit == before & bit)) by (bit_vector);
    assert(flags & bit == bit ==> (before & !flags) & bit == 0) by (bit_vector);
    assert(flags & bit == 0 ==> ((before & !flags) & bit == before & bit)) by (bit_vector);
}

} // verus!
