//! Identifiers and load policies.
use vstd::prelude::*;

verus! {

/// Instance ID.
#[derive(Clone, Copy, Debug, PartialEq, Eq, Structural)]
pub struct InstanceId(pub usize);

/// Snapshot ID: 0 is the current snapshot, larger IDs are older.
#[derive(Clone, Copy, Debug, PartialEq, Eq, Structural)]
pub struct SnapshotId(pub usize);

/// Defaults handling mode.
#[derive(Clone, Copy, Debug, PartialEq, Eq, Structural)]
pub enum KvsDefaults {
    /// Defaults are not loaded.
    Ignored,
    /// Defaults are loaded if the file is there.
    Optional,
    /// Defaults must be there.
    Required,
}

/// KVS load mode.
#[derive(Clone, Copy, Debug, PartialEq, Eq, Structural)]
pub enum KvsLoad {
    /// The current snapshot is not loaded.
    Ignored,
    /// The current snapshot is loaded if the file is there.
    Optional,
    /// The current snapshot must be there.
    Required,
}

} // verus!
