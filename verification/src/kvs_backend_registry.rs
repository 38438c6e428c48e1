//! The registry of backend factories by name.
use vstd::prelude::*;
use vstd::hash_map::StringHashMap;
use vstd::string::StringExecFns;
use crate::error_code::ErrorCode;
use crate::json_backend::{BackendModel, JsonBackend, JsonBackendBuilder};
use crate::kvs_value::{KvsMap, KvsValue, ValueModel};

verus! {

/// KVS backend registry: backend factories of type `F`, each under its name.
#[verifier::reject_recursive_types(F)]
pub struct KvsBackendRegistry<F> {
    pub backends: StringHashMap<F>,
}

impl<F> View for KvsBackendRegistry<F> {
    type V = Map<Seq<char>, F>;

    open spec fn view(&self) -> Map<Seq<char>, F> {
        self.backends@
    }
}

/// Provide the registry that holds the default backends: the JSON backend under `"json"`.
pub fn default_backends<F>(json_factory: F) -> (r: KvsBackendRegistry<F>)
    ensures
        r@ == Map::<Seq<char>, F>::empty().insert("json"@, json_factory),
{
    let mut backends: StringHashMap<F> = StringHashMap::new();
    backends.insert(String::from_str("json"), json_factory);
    KvsBackendRegistry { backends }
}

impl<F> KvsBackendRegistry<F> {
    /// Get registered backend using name; `UnknownBackend` where none has the name.
    pub fn from_name(&self, name: &str) -> (r: Result<&F, ErrorCode>)
        ensures
            self@.dom().contains(name@) ==> r is Ok && *r->Ok_0 == self@[name@],
            !self@.dom().contains(name@) ==> r is Err && r->Err_0 == ErrorCode::UnknownBackend,
    {
        match self.backends.get(name) {
            Some(backend_factory) => Ok(backend_factory),
            None => Err(ErrorCode::UnknownBackend),
        }
    }

    /// Get registered backend using 'name' field from parameters: `KeyNotFound` where the
    /// parameters have no `"name"`, `InvalidBackendParameters` where it is not a string.
    pub fn from_parameters(&self, parameters: &KvsMap) -> (r: Result<&F, ErrorCode>)
        requires
            parameters.wf(),
        ensures
            !parameters@.dom().contains("name"@) ==> r is Err && r->Err_0
                == ErrorCode::KeyNotFound,
            parameters@.dom().contains("name"@) ==> match parameters@["name"@] {
                ValueModel::String(name) => if self@.dom().contains(name) {
                    r is Ok && *r->Ok_0 == self@[name]
                } else {
                    r is Err && r->Err_0 == ErrorCode::UnknownBackend
                },
                _ => r is Err && r->Err_0 == ErrorCode::InvalidBackendParameters,
            },
    {
        match parameters.get("name") {
            Some(value) => match value {
                KvsValue::String(name) => self.from_name(name.as_str()),
                _ => Err(ErrorCode::InvalidBackendParameters),
            },
            None => Err(ErrorCode::KeyNotFound),
        }
    }

    /// Register new backend factory; `BackendAlreadyRegistered` where the name is taken.
    pub fn register(&mut self, name: &str, backend_factory: F) -> (r: Result<(), ErrorCode>)
        ensures
            old(self)@.dom().contains(name@) ==> r == Err::<(), ErrorCode>(
                ErrorCode::BackendAlreadyRegistered,
            ) && final(self)@ == old(self)@,
            !old(self)@.dom().contains(name@) ==> r is Ok && final(self)@ == old(self)@.insert(
                name@,
                backend_factory,
            ),
    {
        if self.backends.contains_key(name) {
            return Err(ErrorCode::BackendAlreadyRegistered);
        }
        self.backends.insert(String::from_str(name), backend_factory);
        Ok(())
    }
}

/// What the backend parameters ask of the JSON backend: `"working_dir"`, a string, the current
/// directory where it is absent; `"snapshot_max_count"`, an unsigned 64-bit number, 3 where it
/// is absent. `None` where one of them has another type or the number is no `usize`.
pub open spec fn json_parameters(parameters: Map<Seq<char>, ValueModel>) -> Option<BackendModel> {
    let working_dir: Option<Seq<char>> = if parameters.dom().contains("working_dir"@) {
        match parameters["working_dir"@] {
            ValueModel::String(dir) => Some(dir),
            _ => None,
        }
    } else {
        Some(Seq::empty())
    };
    let snapshot_max_count: Option<usize> = if parameters.dom().contains("snapshot_max_count"@) {
        match parameters["snapshot_max_count"@] {
            ValueModel::U64(n) => if n <= usize::MAX {
                Some(n as usize)
            } else {
                None
            },
            _ => None,
        }
    } else {
        Some(3)
    };
    match (working_dir, snapshot_max_count) {
        (Some(dir), Some(count)) => Some(
            BackendModel { working_dir: dir, snapshot_max_count: count },
        ),
        _ => None,
    }
}

/// The JSON backend that the backend parameters ask for; `InvalidBackendParameters` where they
/// are malformed.
pub fn json_backend_from_parameters(parameters: &KvsMap) -> (r: Result<JsonBackend, ErrorCode>)
    requires
        parameters.wf(),
    ensures
        match json_parameters(parameters@) {
            Some(model) => r is Ok && r->Ok_0@ == model,
            None => r is Err && r->Err_0 == ErrorCode::InvalidBackendParameters,
        },
{
    let mut builder = JsonBackendBuilder::new();
    match parameters.get("working_dir") {
        Some(value) => match value {
            KvsValue::String(dir) => {
                builder = builder.working_dir(dir.clone());
            },
            _ => {
                return Err(ErrorCode::InvalidBackendParameters);
            },
        },
        None => {},
    }
    match parameters.get("snapshot_max_count") {
        Some(value) => match value {
            KvsValue::U64(n) => {
                if *n > usize::MAX as u64 {
                    return Err(ErrorCode::InvalidBackendParameters);
                }
                builder = builder.snapshot_max_count(*n as usize);
            },
            _ => {
                return Err(ErrorCode::InvalidBackendParameters);
            },
        },
        None => {},
    }
    Ok(builder.build())
}

/// Registry uniqueness: once a factory is registered under a name, the name is taken, and
/// the factory found under another name is the one that was there before.
pub proof fn lemma_registered_name_is_taken<F>(
    registry: Map<Seq<char>, F>,
    name: Seq<char>,
    factory: F,
    other: Seq<char>,
)
    requires
        other != name,
    ensures
        registry.insert(name, factory).dom().contains(name),
        registry.insert(name, factory)[name] == factory,
        registry.insert(name, factory).dom().contains(other) == registry.dom().contains(other),
        registry.dom().contains(other) ==> registry.insert(name, factory)[other]
            == registry[other],
{
}

} // verus!
