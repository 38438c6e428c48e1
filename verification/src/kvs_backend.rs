//! The backend interface: what an instance asks of the storage behind it.
use vstd::prelude::*;
use crate::error_code::ErrorCode;
use crate::kvs_api::{InstanceId, SnapshotId};
use crate::kvs_value::{KvsMap, ValueModel};

verus! {

/// Whether an executable result is the outcome that the model gives: the error, or a valid map
/// with the model's contents.
pub open spec fn is_outcome(
    r: Result<KvsMap, ErrorCode>,
    outcome: Result<Map<Seq<char>, ValueModel>, ErrorCode>,
) -> bool {
    match outcome {
        Ok(m) => r is Ok && r->Ok_0@ == m && r->Ok_0.wf(),
        Err(e) => r is Err && r->Err_0 == e,
    }
}

/// Comparison of two backends of one type by their configuration.
pub trait DynEq {
    /// Whether two backends are configured alike.
    spec fn same_configuration(&self, other: &Self) -> bool;

    /// Whether two backends are configured alike.
    fn dyn_eq(&self, other: &Self) -> (r: bool)
        ensures
            r == self.same_configuration(other),
    ;
}

/// KVS backend interface.
pub trait KvsBackend: DynEq {
    /// What the backend keeps the defaults and the snapshots of one instance in.
    type Storage;

    /// Whether the storage is one that this backend works on.
    spec fn fits(&self, storage: &Self::Storage) -> bool;

    /// The backend-configured ceiling of the number of snapshots.
    spec fn max_count(&self) -> usize;

    /// The number of snapshots in the storage.
    spec fn count(&self, storage: &Self::Storage) -> int;

    /// What loading a snapshot gives.
    spec fn kvs_outcome(
        &self,
        storage: &Self::Storage,
        instance_id: InstanceId,
        snapshot_id: SnapshotId,
    ) -> Result<Map<Seq<char>, ValueModel>, ErrorCode>;

    /// What loading the defaults gives.
    spec fn defaults_outcome(&self, storage: &Self::Storage, instance_id: InstanceId) -> Result<
        Map<Seq<char>, ValueModel>,
        ErrorCode,
    >;

    /// Whether a flush on the storage goes through.
    spec fn can_flush(&self, storage: &Self::Storage) -> bool;

    /// Whether `after` is the storage that a flush of the payload makes of `before`.
    spec fn flushes_to(
        &self,
        before: &Self::Storage,
        payload: Seq<char>,
        after: &Self::Storage,
    ) -> bool;

    /// Whether `after` is the storage that a flush which fails with `error` leaves of
    /// `before`.
    spec fn fails_to(&self, before: &Self::Storage, after: &Self::Storage, error: ErrorCode) -> bool;

    /// Load KVS content.
    fn load_kvs(
        &self,
        storage: &Self::Storage,
        instance_id: InstanceId,
        snapshot_id: SnapshotId,
    ) -> (r: Result<KvsMap, ErrorCode>)
        ensures
            is_outcome(r, self.kvs_outcome(storage, instance_id, snapshot_id)),
    ;

    /// Load default values.
    fn load_defaults(&self, storage: &Self::Storage, instance_id: InstanceId) -> (r: Result<
        KvsMap,
        ErrorCode,
    >)
        ensures
            is_outcome(r, self.defaults_outcome(storage, instance_id)),
    ;

    /// Flush a payload to storage: snapshots are rotated and the payload is stored as the
    /// first (0).
    fn flush(&self, storage: &mut Self::Storage, payload: &str) -> (r: Result<(), ErrorCode>)
        requires
            self.fits(old(storage)),
        ensures
            self.fits(final(storage)),
            r is Ok <==> self.can_flush(old(storage)),
            r is Ok ==> self.flushes_to(old(storage), payload@, final(storage)),
            r is Err ==> self.fails_to(old(storage), final(storage), r->Err_0),
    ;

    /// Count available snapshots.
    fn snapshot_count(&self, storage: &Self::Storage) -> (r: usize)
        requires
            self.fits(storage),
        ensures
            r == self.count(storage),
            r <= self.max_count(),
    ;

    /// Max number of snapshots.
    fn snapshot_max_count(&self) -> (r: usize)
        ensures
            r == self.max_count(),
    ;

    /// Restore snapshot with given ID: snapshot 0 and every ID from the number of snapshots on
    /// are invalid; any other is loaded.
    fn snapshot_restore(
        &self,
        storage: &Self::Storage,
        instance_id: InstanceId,
        snapshot_id: SnapshotId,
    ) -> (r: Result<KvsMap, ErrorCode>)
        requires
            self.fits(storage),
        ensures
            snapshot_id.0 == 0 || snapshot_id.0 >= self.count(storage) ==> r is Err && r->Err_0
                == ErrorCode::InvalidSnapshotId,
            0 < snapshot_id.0 < self.count(storage) ==> is_outcome(
                r,
                self.kvs_outcome(storage, instance_id, snapshot_id),
            ),
    ;
}

} // verus!
