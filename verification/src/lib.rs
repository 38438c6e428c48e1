//! Key-value storage with typed values, integrity-checked JSON snapshots and
//! snapshot rotation.

pub mod binary64;
pub mod entries;
pub mod error_code;
pub mod file_names;
pub mod integrity;
pub mod json_backend;
pub mod json_value;
pub mod kvs;
pub mod kvs_api;
pub mod kvs_backend;
pub mod kvs_backend_registry;
pub mod kvs_builder;
pub mod kvs_mock;
pub mod kvs_serialize;
pub mod kvs_try_from;
pub mod kvs_value;
pub mod kvs_value_eq;
pub mod kvs_value_get;
