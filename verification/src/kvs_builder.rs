//! The builder of instances and the pool that holds each instance once.
use vstd::prelude::*;
use crate::error_code::ErrorCode;
use crate::json_backend::{BackendModel, InstanceFiles, JsonBackend, JsonBackendBuilder};
use crate::kvs::{Kvs, KvsData, KvsParameters};
use crate::kvs_api::{InstanceId, KvsDefaults, KvsLoad, SnapshotId};
use crate::kvs_backend::KvsBackend;
use crate::kvs_value::{KvsMap, ValueModel};

verus! {

/// Maximum number of instances.
pub const KVS_MAX_INSTANCES: usize = 10;

/// The pool of instances: one slot for each instance ID below `KVS_MAX_INSTANCES`.
#[derive(Debug)]
pub struct KvsPool<B> {
    pub slots: Vec<Option<Kvs<B>>>,
}

impl<B: KvsBackend> KvsPool<B> {
    /// Validity: the pool has `KVS_MAX_INSTANCES` slots, and the instance in a slot is valid and
    /// has the slot's index as its ID.
    pub open spec fn wf(self) -> bool {
        &&& self.slots@.len() == KVS_MAX_INSTANCES
        &&& forall|i: int|
            0 <= i < self.slots@.len() ==> (#[trigger] self.slots@[i] matches Some(kvs) ==> kvs.wf()
                && kvs.parameters.instance_id.0 == i)
    }

    /// The pool with no instance.
    pub fn new() -> (r: Self)
        ensures
            r.wf(),
            forall|i: int| 0 <= i < KVS_MAX_INSTANCES ==> r.slots@[i] is None,
    {
        let mut slots: Vec<Option<Kvs<B>>> = Vec::new();
        let mut i: usize = 0;
        while i < KVS_MAX_INSTANCES
            invariant
                i <= KVS_MAX_INSTANCES,
                slots@.len() == i,
                forall|j: int| 0 <= j < i ==> slots@[j] is None,
            decreases KVS_MAX_INSTANCES - i,
        {
            slots.push(None);
            i = i + 1;
        }
        KvsPool { slots }
    }

    /// Whether the pool is valid.
    pub fn is_valid(&self) -> (r: bool)
        ensures
            r == self.wf(),
    {
        if self.slots.len() != KVS_MAX_INSTANCES {
            return false;
        }
        let mut i: usize = 0;
        while i < self.slots.len()
            invariant
                0 <= i <= self.slots.len(),
                self.slots@.len() == KVS_MAX_INSTANCES,
                forall|j: int|
                    0 <= j < i ==> (#[trigger] self.slots@[j] matches Some(kvs) ==> kvs.wf()
                        && kvs.parameters.instance_id.0 == j),
            decreases self.slots.len() - i,
        {
            match &self.slots[i] {
                Some(kvs) => {
                    if !kvs.is_valid() || kvs.parameters.instance_id.0 != i {
                        return false;
                    }
                },
                None => {},
            }
            i = i + 1;
        }
        true
    }

    /// The instance with the given ID, if it was built.
    pub fn get(&self, instance_id: InstanceId) -> (r: Option<&Kvs<B>>)
        ensures
            instance_id.0 < self.slots@.len() ==> match self.slots@[instance_id.0 as int] {
                Some(kvs) => r == Some(&kvs),
                None => r is None,
            },
            instance_id.0 >= self.slots@.len() ==> r is None,
    {
        if instance_id.0 < self.slots.len() {
            self.slots[instance_id.0].as_ref()
        } else {
            None
        }
    }
}

/// What a load gives under a defaults handling mode: nothing is loaded where defaults are
/// ignored; a missing file stands for the empty map where they are optional; every error
/// counts where they are required.
pub open spec fn defaults_by_policy(
    policy: KvsDefaults,
    outcome: Result<Map<Seq<char>, ValueModel>, ErrorCode>,
) -> Result<Map<Seq<char>, ValueModel>, ErrorCode> {
    match policy {
        KvsDefaults::Ignored => Ok(Map::empty()),
        KvsDefaults::Optional => match outcome {
            Err(ErrorCode::FileNotFound) => Ok(Map::empty()),
            _ => outcome,
        },
        KvsDefaults::Required => outcome,
    }
}

/// What a load gives under a KVS load mode, in the same way.
pub open spec fn kvs_by_policy(
    policy: KvsLoad,
    outcome: Result<Map<Seq<char>, ValueModel>, ErrorCode>,
) -> Result<Map<Seq<char>, ValueModel>, ErrorCode> {
    match policy {
        KvsLoad::Ignored => Ok(Map::empty()),
        KvsLoad::Optional => match outcome {
            Err(ErrorCode::FileNotFound) => Ok(Map::empty()),
            _ => outcome,
        },
        KvsLoad::Required => outcome,
    }
}

/// Key-value-storage builder.
#[derive(Debug)]
pub struct KvsBuilder<B> {
    /// Instance ID.
    pub instance_id: InstanceId,
    /// Defaults handling mode.
    pub defaults: Option<KvsDefaults>,
    /// KVS load mode.
    pub kvs_load: Option<KvsLoad>,
    /// Backend.
    pub backend: Option<B>,
}

impl<B: KvsBackend> KvsBuilder<B> {
    /// Whether the builder agrees with the parameters of an instance: the instance ID is the
    /// same, each mode that was set is equal to the instance's, and a backend that was set is
    /// configured as the instance's.
    pub open spec fn agrees(self, other: KvsParameters<B>) -> bool {
        &&& self.instance_id == other.instance_id
        &&& (self.defaults matches Some(mode) ==> mode == other.defaults)
        &&& (self.kvs_load matches Some(mode) ==> mode == other.kvs_load)
        &&& (self.backend matches Some(backend) ==> backend.same_configuration(&other.backend))
    }

    /// The parameters that a new instance gets: what was set, and for the rest optional
    /// defaults, optional load, and the fallback backend.
    pub open spec fn resolved(self, fallback: B) -> KvsParameters<B> {
        KvsParameters {
            instance_id: self.instance_id,
            defaults: match self.defaults {
                Some(mode) => mode,
                None => KvsDefaults::Optional,
            },
            kvs_load: match self.kvs_load {
                Some(mode) => mode,
                None => KvsLoad::Optional,
            },
            backend: match self.backend {
                Some(backend) => backend,
                None => fallback,
            },
        }
    }

    /// The defaults map and the live map that a new instance with the given parameters starts
    /// with, or the error that stops the build. The defaults are loaded first.
    pub open spec fn initial_maps(parameters: KvsParameters<B>, storage: B::Storage) -> Result<
        (Map<Seq<char>, ValueModel>, Map<Seq<char>, ValueModel>),
        ErrorCode,
    > {
        let defaults = defaults_by_policy(
            parameters.defaults,
            parameters.backend.defaults_outcome(&storage, parameters.instance_id),
        );
        let live = kvs_by_policy(
            parameters.kvs_load,
            parameters.backend.kvs_outcome(&storage, parameters.instance_id, SnapshotId(0)),
        );
        match defaults {
            Err(e) => Err(e),
            Ok(defaults_map) => match live {
                Err(e) => Err(e),
                Ok(live_map) => Ok((defaults_map, live_map)),
            },
        }
    }

    /// What a build does to a valid pool: an instance ID from `KVS_MAX_INSTANCES` on is
    /// invalid. Where the pool holds an instance with this ID, the builder must agree with its
    /// parameters; the instance is then the one that was built before, and the pool stays as
    /// it is. Else a new instance with the resolved parameters is made from the storage and
    /// put into the pool; an error of a load stops the build and leaves the pool as it is.
    pub open spec fn builds(
        self,
        fallback: B,
        storage: B::Storage,
        before: KvsPool<B>,
        after: KvsPool<B>,
        r: Result<InstanceId, ErrorCode>,
    ) -> bool {
        if self.instance_id.0 >= KVS_MAX_INSTANCES {
            r is Err && r->Err_0 == ErrorCode::InvalidInstanceId && after == before
        } else {
            match before.slots@[self.instance_id.0 as int] {
                Some(kvs) => after == before && if self.agrees(kvs.parameters) {
                    r == Ok::<InstanceId, ErrorCode>(self.instance_id)
                } else {
                    r is Err && r->Err_0 == ErrorCode::InstanceParametersMismatch
                },
                None => match Self::initial_maps(self.resolved(fallback), storage) {
                    Err(e) => r is Err && r->Err_0 == e && after == before,
                    Ok(maps) => {
                        &&& r == Ok::<InstanceId, ErrorCode>(self.instance_id)
                        &&& forall|i: int|
                            0 <= i < KVS_MAX_INSTANCES && i != self.instance_id.0
                                ==> after.slots@[i] == before.slots@[i]
                        &&& after.slots@[self.instance_id.0 as int] matches Some(kvs)
                            && kvs.parameters == self.resolved(fallback) && kvs.defaults()
                            == maps.0 && kvs.live() == maps.1
                    },
                },
            }
        }
    }

    /// Create a builder to open the key-value-storage
    ///
    /// Only the instance ID must be set. All other settings are using default values until
    /// changed via the builder API.
    pub fn new(instance_id: InstanceId) -> (r: Self)
        ensures
            r.instance_id == instance_id,
            r.defaults is None,
            r.kvs_load is None,
            r.backend is None,
    {
        Self { instance_id, defaults: None, kvs_load: None, backend: None }
    }

    /// Return maximum number of allowed KVS instances.
    pub fn max_instances() -> (r: usize)
        ensures
            r == KVS_MAX_INSTANCES,
    {
        KVS_MAX_INSTANCES
    }

    /// Configure defaults handling mode.
    pub fn defaults(self, mode: KvsDefaults) -> (r: Self)
        ensures
            r.instance_id == self.instance_id,
            r.defaults == Some(mode),
            r.kvs_load == self.kvs_load,
            r.backend == self.backend,
    {
        Self {
            instance_id: self.instance_id,
            defaults: Some(mode),
            kvs_load: self.kvs_load,
            backend: self.backend,
        }
    }

    /// Configure KVS load mode.
    pub fn kvs_load(self, mode: KvsLoad) -> (r: Self)
        ensures
            r.instance_id == self.instance_id,
            r.defaults == self.defaults,
            r.kvs_load == Some(mode),
            r.backend == self.backend,
    {
        Self {
            instance_id: self.instance_id,
            defaults: self.defaults,
            kvs_load: Some(mode),
            backend: self.backend,
        }
    }

    /// Set backend.
    pub fn backend(self, backend: B) -> (r: Self)
        ensures
            r.instance_id == self.instance_id,
            r.defaults == self.defaults,
            r.kvs_load == self.kvs_load,
            r.backend == Some(backend),
    {
        Self {
            instance_id: self.instance_id,
            defaults: self.defaults,
            kvs_load: self.kvs_load,
            backend: Some(backend),
        }
    }

    /// Compare existing parameters with expected configuration.
    pub fn compare_parameters(&self, other: &KvsParameters<B>) -> (r: bool)
        ensures
            r == self.agrees(*other),
    {
        if self.instance_id != other.instance_id {
            return false;
        }
        match self.defaults {
            Some(mode) => {
                if mode != other.defaults {
                    return false;
                }
            },
            None => {},
        }
        match self.kvs_load {
            Some(mode) => {
                if mode != other.kvs_load {
                    return false;
                }
            },
            None => {},
        }
        match &self.backend {
            Some(backend) => backend.dyn_eq(&other.backend),
            None => true,
        }
    }

    /// Finalize the builder and open the key-value-storage, with `fallback` as the backend
    /// where none was set.
    pub fn build_with(self, pool: &mut KvsPool<B>, storage: &B::Storage, fallback: B) -> (r: Result<
        InstanceId,
        ErrorCode,
    >)
        requires
            old(pool).wf(),
        ensures
            final(pool).wf(),
            self.builds(fallback, *storage, *old(pool), *final(pool), r),
    {
        let instance_id = self.instance_id;
        let index: usize = instance_id.0;
        if index >= pool.slots.len() {
            return Err(ErrorCode::InvalidInstanceId);
        }
        match &pool.slots[index] {
            Some(kvs) => {
                if self.compare_parameters(&kvs.parameters) {
                    return Ok(instance_id);
                } else {
                    return Err(ErrorCode::InstanceParametersMismatch);
                }
            },
            None => {},
        }
        let defaults = match self.defaults {
            Some(mode) => mode,
            None => KvsDefaults::Optional,
        };
        let kvs_load = match self.kvs_load {
            Some(mode) => mode,
            None => KvsLoad::Optional,
        };
        let backend = match self.backend {
            Some(backend) => backend,
            None => fallback,
        };
        let parameters = KvsParameters { instance_id, defaults, kvs_load, backend };
        let defaults_map = match parameters.defaults {
            KvsDefaults::Ignored => KvsMap::new(),
            KvsDefaults::Optional => match parameters.backend.load_defaults(storage, instance_id) {
                Ok(map) => map,
                Err(e) => match e {
                    ErrorCode::FileNotFound => KvsMap::new(),
                    _ => {
                        return Err(e);
                    },
                },
            },
            KvsDefaults::Required => match parameters.backend.load_defaults(storage, instance_id) {
                Ok(map) => map,
                Err(e) => {
                    return Err(e);
                },
            },
        };
        let snapshot_id = SnapshotId(0);
        let kvs_map = match parameters.kvs_load {
            KvsLoad::Ignored => KvsMap::new(),
            KvsLoad::Optional => match parameters.backend.load_kvs(
                storage,
                instance_id,
                snapshot_id,
            ) {
                Ok(map) => map,
                Err(e) => match e {
                    ErrorCode::FileNotFound => KvsMap::new(),
                    _ => {
                        return Err(e);
                    },
                },
            },
            KvsLoad::Required => match parameters.backend.load_kvs(
                storage,
                instance_id,
                snapshot_id,
            ) {
                Ok(map) => map,
                Err(e) => {
                    return Err(e);
                },
            },
        };
        let kvs = Kvs::new(KvsData { kvs_map, defaults_map }, parameters);
        pool.slots.set(index, Some(kvs));
        Ok(instance_id)
    }
}

impl KvsBuilder<JsonBackend> {
    /// Finalize the builder and open the key-value-storage. Where no backend was set, the
    /// instance gets the JSON backend in the current directory with three snapshots.
    pub fn build(self, pool: &mut KvsPool<JsonBackend>, files: &InstanceFiles) -> (r: Result<
        InstanceId,
        ErrorCode,
    >)
        requires
            old(pool).wf(),
        ensures
            final(pool).wf(),
            exists|fallback: JsonBackend|
                fallback@ == (BackendModel { working_dir: Seq::empty(), snapshot_max_count: 3 })
                    && #[trigger] self.builds(fallback, *files, *old(pool), *final(pool), r),
    {
        let fallback = JsonBackendBuilder::new().build();
        self.build_with(pool, files, fallback)
    }
}

} // verus!
