//! Statistics tracking for the registry.

use vstd::prelude::*;

verus! {

/// Statistics about the registry state.
#[derive(Debug, Clone, Copy, PartialEq, Eq)]
pub struct RegistryStats {
    /// Total number of active handles
    pub total_handles: u64,
    /// Total number of create operations
    pub total_creates: u64,
    /// Total number of read operations
    pub total_reads: u64,
    /// Total number of update operations
    pub total_updates: u64,
    /// Total number of delete operations
    pub total_deletes: u64,
    /// Approximate memory usage in bytes
    pub memory_usage_bytes: u64,
}

/// `a + b`, capped at `u64::MAX`.
pub open spec fn sat_add(a: u64, b: u64) -> u64 {
    if a + b > u64::MAX { u64::MAX } else { (a + b) as u64 }
}

/// `a - b`, floored at zero.
pub open spec fn sat_sub(a: u64, b: u64) -> u64 {
    if a < b { 0 } else { (a - b) as u64 }
}

impl RegistryStats {
    /// The all-zero statistics.
    pub open spec fn zero() -> RegistryStats {
        RegistryStats {
            total_handles: 0,
            total_creates: 0,
            total_reads: 0,
            total_updates: 0,
            total_deletes: 0,
            memory_usage_bytes: 0,
        }
    }

    /// Create new empty statistics.
    pub fn new() -> (s: RegistryStats)
        ensures
            s == RegistryStats::zero(),
    {
        RegistryStats {
            total_handles: 0,
            total_creates: 0,
            total_reads: 0,
            total_updates: 0,
            total_deletes: 0,
            memory_usage_bytes: 0,
        }
    }

    /// Reset all statistics to zero.
    pub fn reset(&mut self)
        ensures
            *final(self) == RegistryStats::zero(),
    {
        *self = RegistryStats::new();
    }

    /// Add memory usage (saturating).
    pub fn add_memory(&mut self, bytes: u64)
        ensures
            *final(self) == (RegistryStats {
                memory_usage_bytes: sat_add(old(self).memory_usage_bytes, bytes),
                ..*old(self)
            }),
    {
        self.memory_usage_bytes = self.memory_usage_bytes.saturating_add(bytes);
    }

    /// Remove memory usage (saturating at zero).
    pub fn remove_memory(&mut self, bytes: u64)
        ensures
            *final(self) == (RegistryStats {
                memory_usage_bytes: sat_sub(old(self).memory_usage_bytes, bytes),
                ..*old(self)
            }),
    {
        self.memory_usage_bytes = self.memory_usage_bytes.saturating_sub(bytes);
    }

    /// Count one create operation: one more create and one more live handle.
    pub fn increment_creates(&mut self)
        ensures
            *final(self) == (RegistryStats {
                total_creates: sat_add(old(self).total_creates, 1),
                total_handles: sat_add(old(self).total_handles, 1),
                ..*old(self)
            }),
    {
        self.total_creates = self.total_creates.saturating_add(1);
        self.total_handles = self.total_handles.saturating_add(1);
    }

    /// Count one read operation.
    pub fn increment_reads(&mut self)
        ensures
            *final(self) == (RegistryStats {
                total_reads: sat_add(old(self).total_reads, 1),
                ..*old(self)
            }),
    {
        self.total_reads = self.total_reads.saturating_add(1);
    }

    /// Count one update operation.
    pub fn increment_updates(&mut self)
        ensures
            *final(self) == (RegistryStats {
                total_updates: sat_add(old(self).total_updates, 1),
                ..*old(self)
            }),
    {
        self.total_updates = self.total_updates.saturating_add(1);
    }

    /// Count one delete operation: one more delete and one live handle fewer.
    pub fn increment_deletes(&mut self)
        ensures
            *final(self) == (RegistryStats {
                total_deletes: sat_add(old(self).total_deletes, 1),
                total_handles: sat_sub(old(self).total_handles, 1),
                ..*old(self)
            }),
    {
        self.total_deletes = self.total_deletes.saturating_add(1);
        self.total_handles = self.total_handles.saturating_sub(1);
    }
}

impl Default for RegistryStats {
    fn default() -> (s: RegistryStats)
        ensures
            s == RegistryStats::zero(),
    {
        RegistryStats::new()
    }
}

} // verus!
