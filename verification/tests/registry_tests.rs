use rust_kvs::error_code::ErrorCode;
use rust_kvs::json_backend::JsonBackend;
use rust_kvs::kvs_backend::KvsBackend;
use rust_kvs::kvs_backend_registry::{
    default_backends, json_backend_from_parameters, KvsBackendRegistry,
};
use rust_kvs::kvs_value::{KvsMap, KvsValue};

/// Function providing a backend from its parameters.
type Factory = fn(&KvsMap) -> Result<JsonBackend, ErrorCode>;

/// The registry in its initial state.
fn fresh() -> KvsBackendRegistry<Factory> {
    default_backends(json_backend_from_parameters as Factory)
}

/// Mock backend factory.
fn mock_factory(_parameters: &KvsMap) -> Result<JsonBackend, ErrorCode> {
    Err(ErrorCode::UnmappedError)
}

fn params(name: KvsValue) -> KvsMap {
    let mut map = KvsMap::new();
    map.insert("name".to_string(), name);
    map
}

#[test]
fn test_from_name_ok() {
    let registry = fresh();
    let result = registry.from_name("json");
    assert!(result.is_ok());
}

#[test]
fn test_from_name_unknown() {
    let registry = fresh();
    let result = registry.from_name("unknown");
    assert!(result.is_err_and(|e| e == ErrorCode::UnknownBackend));
}

#[test]
fn test_from_parameters_ok() {
    let registry = fresh();
    let params = params(KvsValue::String("json".to_string()));
    let result = registry.from_parameters(&params);
    assert!(result.is_ok());
}

#[test]
fn test_from_parameters_unknown() {
    let registry = fresh();
    let params = params(KvsValue::String("unknown".to_string()));
    let result = registry.from_parameters(&params);
    assert!(result.is_err_and(|e| e == ErrorCode::UnknownBackend));
}

#[test]
fn test_from_parameters_invalid_type() {
    let registry = fresh();
    let params = params(KvsValue::I64(123));
    let result = registry.from_parameters(&params);
    assert!(result.is_err_and(|e| e == ErrorCode::InvalidBackendParameters));
}

#[test]
fn test_from_parameters_missing_name() {
    let registry = fresh();
    let params = KvsMap::new();
    let result = registry.from_parameters(&params);
    assert!(result.is_err_and(|e| e == ErrorCode::KeyNotFound));
}

#[test]
fn test_register_ok() {
    let mut registry = fresh();
    let result = registry.register("mock", mock_factory as Factory);
    assert!(result.is_ok());
}

#[test]
fn test_register_already_registered() {
    let mut registry = fresh();
    registry.register("mock", mock_factory as Factory).unwrap();
    let result = registry.register("mock", mock_factory as Factory);
    assert!(result.is_err_and(|e| e == ErrorCode::BackendAlreadyRegistered))
}

#[test]
fn test_register_default_name_is_taken() {
    let mut registry = fresh();
    let result = registry.register("json", mock_factory as Factory);
    assert!(result.is_err_and(|e| e == ErrorCode::BackendAlreadyRegistered));
    assert!(registry.from_name("json").is_ok());
}

#[test]
fn test_registered_factory_is_the_one_found() {
    let mut registry = fresh();
    registry.register("mock", mock_factory as Factory).unwrap();
    let found = registry.from_name("mock").unwrap();
    assert!(found(&KvsMap::new()).is_err_and(|e| e == ErrorCode::UnmappedError));
    let json = registry.from_name("json").unwrap();
    let backend = json(&KvsMap::new()).unwrap();
    assert_eq!(backend.snapshot_max_count(), 3);
    assert_eq!(backend.directory(), "");
}

#[test]
fn test_json_backend_from_parameters() {
    let mut map = KvsMap::new();
    map.insert("name".to_string(), KvsValue::String("json".to_string()));
    map.insert("working_dir".to_string(), KvsValue::String("/tmp/kvs".to_string()));
    map.insert("snapshot_max_count".to_string(), KvsValue::U64(5));
    let backend = json_backend_from_parameters(&map).unwrap();
    assert_eq!(backend.directory(), "/tmp/kvs");
    assert_eq!(backend.snapshot_max_count(), 5);

    let mut bad = KvsMap::new();
    bad.insert("snapshot_max_count".to_string(), KvsValue::I32(5));
    assert!(json_backend_from_parameters(&bad).is_err_and(|e| e == ErrorCode::InvalidBackendParameters));
    let mut bad_dir = KvsMap::new();
    bad_dir.insert("working_dir".to_string(), KvsValue::Boolean(true));
    assert!(json_backend_from_parameters(&bad_dir).is_err_and(|e| e == ErrorCode::InvalidBackendParameters));
}

