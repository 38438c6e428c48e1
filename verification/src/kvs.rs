//! A key-value storage instance: the live map, the defaults map and the typed API over them.
use vstd::prelude::*;
use vstd::string::StringExecFns;
use crate::error_code::ErrorCode;
use crate::file_names::join_path;
use crate::json_backend::{
    first_absent, hash_name, kvs_name, load_outcome, plan_completes, planned_moves, JsonBackend,
    RotationPlan, SnapshotFiles, SnapshotPresence,
};
use crate::json_value::{encode_map, JsonModel, JsonNode};
use crate::kvs_api::{InstanceId, KvsDefaults, KvsLoad, SnapshotId};
use crate::kvs_backend::KvsBackend;
use crate::kvs_serialize::{is_out_of_range, Extraction, KvsDeserialize, KvsSerialize};
use crate::kvs_value::{is_key_list, KvsMap, KvsValue, ValueModel};

verus! {

/// KVS instance parameters.
#[derive(Debug)]
pub struct KvsParameters<B> {
    /// Instance ID.
    pub instance_id: InstanceId,
    /// Defaults handling mode.
    pub defaults: KvsDefaults,
    /// KVS load mode.
    pub kvs_load: KvsLoad,
    /// Backend.
    pub backend: B,
}

/// KVS instance data.
#[derive(Debug)]
pub struct KvsData {
    /// Storage data.
    pub kvs_map: KvsMap,
    /// Optional default values.
    pub defaults_map: KvsMap,
}

/// Key-value-storage data
#[derive(Debug)]
pub struct Kvs<B> {
    /// KVS instance data.
    pub data: KvsData,
    /// KVS instance parameters.
    pub parameters: KvsParameters<B>,
}

/// What a lookup of a key gives: the live value, else the default, else nothing.
pub open spec fn lookup(
    live: Map<Seq<char>, ValueModel>,
    defaults: Map<Seq<char>, ValueModel>,
    key: Seq<char>,
) -> Option<ValueModel> {
    if live.dom().contains(key) {
        Some(live[key])
    } else if defaults.dom().contains(key) {
        Some(defaults[key])
    } else {
        None
    }
}

impl<B: KvsBackend> Kvs<B> {
    /// Validity: in neither map does a key occur twice.
    pub open spec fn wf(self) -> bool {
        self.data.kvs_map.wf() && self.data.defaults_map.wf()
    }

    /// The live map.
    pub open spec fn live(self) -> Map<Seq<char>, ValueModel> {
        self.data.kvs_map@
    }

    /// The defaults map.
    pub open spec fn defaults(self) -> Map<Seq<char>, ValueModel> {
        self.data.defaults_map@
    }

    /// Whether the instance is valid.
    pub fn is_valid(&self) -> (r: bool)
        ensures
            r == self.wf(),
    {
        self.data.kvs_map.is_valid() && self.data.defaults_map.is_valid()
    }

    /// An instance with the given data and parameters.
    pub fn new(data: KvsData, parameters: KvsParameters<B>) -> (r: Self)
        ensures
            r.data == data,
            r.parameters == parameters,
    {
        Self { data, parameters }
    }

    /// KVS instance parameters.
    pub fn parameters(&self) -> (r: &KvsParameters<B>)
        ensures
            *r == self.parameters,
    {
        &self.parameters
    }

    /// Resets a key-value-storage to its initial state: the live map is emptied, the defaults
    /// stay.
    pub fn reset(&mut self) -> (r: Result<(), ErrorCode>)
        ensures
            r is Ok,
            final(self).wf() == old(self).data.defaults_map.wf(),
            final(self).live() == Map::<Seq<char>, ValueModel>::empty(),
            final(self).data.defaults_map == old(self).data.defaults_map,
            final(self).parameters == old(self).parameters,
    {
        self.data.kvs_map = KvsMap::new();
        Ok(())
    }

    /// Reset a key-value pair in the storage to its initial state: a key that has a default
    /// leaves the live map; one without a default is refused with `KeyDefaultNotFound`.
    pub fn reset_key(&mut self, key: &str) -> (r: Result<(), ErrorCode>)
        requires
            old(self).wf(),
        ensures
            final(self).wf(),
            final(self).data.defaults_map == old(self).data.defaults_map,
            final(self).parameters == old(self).parameters,
            old(self).defaults().dom().contains(key@) ==> r is Ok && final(self).live() == old(
                self,
            ).live().remove(key@),
            !old(self).defaults().dom().contains(key@) ==> r == Err::<(), ErrorCode>(
                ErrorCode::KeyDefaultNotFound,
            ) && final(self).live() == old(self).live(),
    {
        if !self.data.defaults_map.contains_key(key) {
            return Err(ErrorCode::KeyDefaultNotFound);
        }
        let _ = self.data.kvs_map.remove(key);
        Ok(())
    }

    /// Get list of all keys of the live map, each once, in no particular order.
    pub fn get_all_keys(&self) -> (r: Result<Vec<String>, ErrorCode>)
        requires
            self.wf(),
        ensures
            r is Ok,
            is_key_list(r->Ok_0@, self.live()),
    {
        Ok(self.data.kvs_map.keys())
    }

    /// Check if a key exists in the live map.
    pub fn key_exists(&self, key: &str) -> (r: Result<bool, ErrorCode>)
        ensures
            r is Ok,
            r->Ok_0 == self.live().dom().contains(key@),
    {
        Ok(self.data.kvs_map.contains_key(key))
    }

    /// Get the assigned value for a given key: the live value, else the default;
    /// `KeyNotFound` where the key is in neither map.
    pub fn get_value(&self, key: &str) -> (r: Result<KvsValue, ErrorCode>)
        requires
            self.wf(),
        ensures
            match lookup(self.live(), self.defaults(), key@) {
                Some(value) => r is Ok && r->Ok_0@ == value,
                None => r == Err::<KvsValue, ErrorCode>(ErrorCode::KeyNotFound),
            },
    {
        match self.data.kvs_map.get(key) {
            Some(value) => Ok(value.clone()),
            None => match self.data.defaults_map.get(key) {
                Some(value) => Ok(value.clone()),
                None => Err(ErrorCode::KeyNotFound),
            },
        }
    }

    /// Get the assigned value for a given key as an object of type `T`: `KeyNotFound` where
    /// the key is in neither map, `ConversionFailed` where the value does not give a `T`.
    pub fn get_value_as<T: KvsDeserialize>(&self, key: &str) -> (r: Result<T, ErrorCode>)
        requires
            self.wf(),
        ensures
            match lookup(self.live(), self.defaults(), key@) {
                Some(value) => match T::extraction(value) {
                    Extraction::Taken => r is Ok && T::holds(value, r->Ok_0),
                    _ => is_out_of_range(r),
                },
                None => r is Err && r->Err_0 == ErrorCode::KeyNotFound,
            },
    {
        let found = match self.data.kvs_map.get(key) {
            Some(value) => Some(value),
            None => self.data.defaults_map.get(key),
        };
        match found {
            Some(value) => match T::from_kvs(value) {
                Ok(object) => Ok(object),
                Err(e) => Err(ErrorCode::ConversionFailed),
            },
            None => Err(ErrorCode::KeyNotFound),
        }
    }

    /// Get default value for a given key; `KeyNotFound` where the key has no default.
    pub fn get_default_value(&self, key: &str) -> (r: Result<KvsValue, ErrorCode>)
        requires
            self.wf(),
        ensures
            self.defaults().dom().contains(key@) ==> r is Ok && r->Ok_0@ == self.defaults()[key@],
            !self.defaults().dom().contains(key@) ==> r == Err::<KvsValue, ErrorCode>(
                ErrorCode::KeyNotFound,
            ),
    {
        match self.data.defaults_map.get(key) {
            Some(value) => Ok(value.clone()),
            None => Err(ErrorCode::KeyNotFound),
        }
    }

    /// Return if the value wasn't set yet and uses its default value: `false` for a key of the
    /// live map, `true` for a key that is in the defaults only, `KeyNotFound` for any other.
    pub fn is_value_default(&self, key: &str) -> (r: Result<bool, ErrorCode>)
        ensures
            self.live().dom().contains(key@) ==> r == Ok::<bool, ErrorCode>(false),
            !self.live().dom().contains(key@) && self.defaults().dom().contains(key@) ==> r
                == Ok::<bool, ErrorCode>(true),
            !self.live().dom().contains(key@) && !self.defaults().dom().contains(key@) ==> r
                == Err::<bool, ErrorCode>(ErrorCode::KeyNotFound),
    {
        if self.data.kvs_map.contains_key(key) {
            Ok(false)
        } else if self.data.defaults_map.contains_key(key) {
            Ok(true)
        } else {
            Err(ErrorCode::KeyNotFound)
        }
    }

    /// Assign a value to a given key in the live map; a value that cannot be stored is
    /// refused with the error of its conversion, and the map stays as it is.
    pub fn set_value<V: KvsSerialize>(&mut self, key: &str, value: V) -> (r: Result<(), ErrorCode>)
        requires
            old(self).wf(),
        ensures
            final(self).wf(),
            final(self).data.defaults_map == old(self).data.defaults_map,
            final(self).parameters == old(self).parameters,
            match value.stored() {
                Some(stored) => r is Ok && final(self).live() == old(self).live().insert(
                    key@,
                    stored,
                ),
                None => r is Err && final(self).live() == old(self).live(),
            },
    {
        match value.to_kvs() {
            Ok(stored) => {
                self.data.kvs_map.insert(String::from_str(key), stored);
                Ok(())
            },
            Err(e) => Err(e),
        }
    }

    /// Remove a key from the live map; `KeyNotFound` where it is not there.
    pub fn remove_key(&mut self, key: &str) -> (r: Result<(), ErrorCode>)
        requires
            old(self).wf(),
        ensures
            final(self).wf(),
            final(self).live() == old(self).live().remove(key@),
            final(self).data.defaults_map == old(self).data.defaults_map,
            final(self).parameters == old(self).parameters,
            old(self).live().dom().contains(key@) ==> r is Ok,
            !old(self).live().dom().contains(key@) ==> r == Err::<(), ErrorCode>(
                ErrorCode::KeyNotFound,
            ),
    {
        match self.data.kvs_map.remove(key) {
            Some(_) => Ok(()),
            None => Err(ErrorCode::KeyNotFound),
        }
    }

    /// The document that a flush stores: the live map with each value wrapped.
    pub fn snapshot_document(&self) -> (r: JsonNode)
        ensures
            r.wf(),
            r@ == JsonModel::Object(encode_map(self.live())),
    {
        let object = crate::json_value::JsonObject::from_map(&self.data.kvs_map);
        proof {
            crate::json_value::lemma_node_object(object);
        }
        JsonNode::Object(object)
    }

    /// Flush the in-memory key-value-storage to the persistent storage: the backend rotates
    /// the snapshots and stores `payload`, the text of the snapshot document, as snapshot 0.
    /// With a maximum of no snapshots, nothing happens.
    pub fn flush(&self, storage: &mut B::Storage, payload: &str) -> (r: Result<(), ErrorCode>)
        requires
            self.parameters.backend.fits(old(storage)),
        ensures
            self.parameters.backend.fits(final(storage)),
            self.parameters.backend.max_count() == 0 ==> r is Ok && *final(storage) == *old(
                storage,
            ),
            self.parameters.backend.max_count() > 0 ==> {
                &&& r is Ok <==> self.parameters.backend.can_flush(old(storage))
                &&& r is Ok ==> self.parameters.backend.flushes_to(
                    old(storage),
                    payload@,
                    final(storage),
                )
                &&& r is Err ==> self.parameters.backend.fails_to(
                    old(storage),
                    final(storage),
                    r->Err_0,
                )
            },
    {
        if self.snapshot_max_count() == 0 {
            return Ok(());
        }
        self.parameters.backend.flush(storage, payload)
    }

    /// Get the count of snapshots.
    pub fn snapshot_count(&self, storage: &B::Storage) -> (r: usize)
        requires
            self.parameters.backend.fits(storage),
        ensures
            r == self.parameters.backend.count(storage),
            r <= self.parameters.backend.max_count(),
    {
        self.parameters.backend.snapshot_count(storage)
    }

    /// Return maximum number of snapshots to store.
    pub fn snapshot_max_count(&self) -> (r: usize)
        ensures
            r == self.parameters.backend.max_count(),
    {
        self.parameters.backend.snapshot_max_count()
    }

    /// Recover key-value-storage from snapshot: the live map becomes what the snapshot holds.
    /// Snapshot 0 and every ID from the number of snapshots on are invalid. On any error the
    /// live map stays as it is.
    pub fn snapshot_restore(&mut self, storage: &B::Storage, snapshot_id: SnapshotId) -> (r:
        Result<(), ErrorCode>)
        requires
            old(self).wf(),
            old(self).parameters.backend.fits(storage),
        ensures
            final(self).wf(),
            final(self).data.defaults_map == old(self).data.defaults_map,
            final(self).parameters == old(self).parameters,
            snapshot_id.0 == 0 || snapshot_id.0 >= old(self).parameters.backend.count(storage)
                ==> r == Err::<(), ErrorCode>(ErrorCode::InvalidSnapshotId),
            0 < snapshot_id.0 < old(self).parameters.backend.count(storage) ==> match old(
                self,
            ).parameters.backend.kvs_outcome(
                storage,
                old(self).parameters.instance_id,
                snapshot_id,
            ) {
                Ok(m) => r is Ok && final(self).live() == m,
                Err(e) => r is Err && r->Err_0 == e,
            },
            r is Err ==> final(self).live() == old(self).live(),
    {
        match self.parameters.backend.snapshot_restore(
            storage,
            self.parameters.instance_id,
            snapshot_id,
        ) {
            Ok(map) => {
                self.data.kvs_map = map;
                Ok(())
            },
            Err(e) => Err(e),
        }
    }
}

impl Kvs<JsonBackend> {
    /// What a flush does to the files in storage, given for each snapshot ID below the maximum
    /// which of its files are there: nothing, with a maximum of no snapshots; else the rotation
    /// of the plan, after which the payload and its digest are written as snapshot 0 where the
    /// plan completes, and the flush fails with `IntegrityCorrupted` where it does not.
    pub fn flush_plan(&self, present: &Vec<SnapshotPresence>) -> (r: Option<RotationPlan>)
        requires
            present@.len() == self.parameters.backend@.snapshot_max_count,
        ensures
            self.parameters.backend@.snapshot_max_count == 0 ==> r is None,
            self.parameters.backend@.snapshot_max_count > 0 ==> r is Some && r->Some_0.moves@
                == planned_moves(present@, present@.len() - 1) && r->Some_0.complete
                == plan_completes(present@, present@.len() - 1),
    {
        if self.snapshot_max_count() == 0 {
            return None;
        }
        Some(self.parameters.backend.rotation_plan(present))
    }

    /// Recover key-value-storage from snapshot, given for each snapshot ID below the maximum
    /// which of its files are there, and the files of the snapshot itself: the live map becomes
    /// what the snapshot holds. Snapshot 0 and every ID from the number of snapshots on are
    /// invalid. On any error the live map stays as it is.
    pub fn snapshot_restore_present(
        &mut self,
        present: &Vec<SnapshotPresence>,
        files: &SnapshotFiles,
        snapshot_id: SnapshotId,
    ) -> (r: Result<(), ErrorCode>)
        requires
            old(self).wf(),
            present@.len() == old(self).parameters.backend@.snapshot_max_count,
        ensures
            final(self).wf(),
            final(self).data.defaults_map == old(self).data.defaults_map,
            final(self).parameters == old(self).parameters,
            snapshot_id.0 == 0 || snapshot_id.0 >= first_absent(present@, 0) ==> r == Err::<
                (),
                ErrorCode,
            >(ErrorCode::InvalidSnapshotId),
            0 < snapshot_id.0 < first_absent(present@, 0) ==> match load_outcome(
                join_path(
                    old(self).parameters.backend@.working_dir,
                    kvs_name(old(self).parameters.instance_id, snapshot_id),
                ),
                join_path(
                    old(self).parameters.backend@.working_dir,
                    hash_name(old(self).parameters.instance_id, snapshot_id),
                ),
                files@,
            ) {
                Ok(m) => r is Ok && final(self).live() == m,
                Err(e) => r is Err && r->Err_0 == e,
            },
            r is Err ==> final(self).live() == old(self).live(),
    {
        match self.parameters.backend.restore_present(
            present,
            files,
            self.parameters.instance_id,
            snapshot_id,
        ) {
            Ok(map) => {
                self.data.kvs_map = map;
                Ok(())
            },
            Err(e) => Err(e),
        }
    }
}

/// Defaults fallback: a key that is in the defaults only is read as its default and counts as
/// default; once it is set it is read as what was set and no longer counts as default; once it
/// is taken out of the live map again, it is read as its default as before.
pub proof fn lemma_defaults_fallback(
    live: Map<Seq<char>, ValueModel>,
    defaults: Map<Seq<char>, ValueModel>,
    key: Seq<char>,
    value: ValueModel,
)
    requires
        !live.dom().contains(key),
        defaults.dom().contains(key),
    ensures
        lookup(live, defaults, key) == Some(defaults[key]),
        live.insert(key, value).dom().contains(key),
        lookup(live.insert(key, value), defaults, key) == Some(value),
        live.insert(key, value).remove(key) == live,
        lookup(live.insert(key, value).remove(key), defaults, key) == Some(defaults[key]),
{
    assert(live.insert(key, value).remove(key) =~= live);
}

} // verus!
