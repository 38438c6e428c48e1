use rust_kvs::error_code::ErrorCode;
use rust_kvs::json_backend::{
    InstanceFiles, JsonBackend, JsonBackendBuilder, SnapshotFiles, SnapshotPresence,
};
use rust_kvs::json_value::JsonNode;
use rust_kvs::kvs::Kvs;
use rust_kvs::kvs_api::{InstanceId, KvsDefaults, KvsLoad, SnapshotId};
use rust_kvs::kvs_backend::KvsBackend;
use rust_kvs::kvs_builder::{KvsBuilder, KvsPool};
use rust_kvs::kvs_serialize::{KvsDeserialize, KvsSerialize};
use rust_kvs::kvs_value::{KvsMap, KvsValue};
use rust_kvs::integrity::seal;

fn to_tiny(node: &JsonNode) -> tinyjson::JsonValue {
    match node {
        JsonNode::Number(bits) => tinyjson::JsonValue::Number(f64::from_bits(*bits)),
        JsonNode::Boolean(b) => tinyjson::JsonValue::Boolean(*b),
        JsonNode::String(s) => tinyjson::JsonValue::String(s.clone()),
        JsonNode::Null => tinyjson::JsonValue::Null,
        JsonNode::Array(items) => tinyjson::JsonValue::Array(items.iter().map(to_tiny).collect()),
        JsonNode::Object(object) => tinyjson::JsonValue::Object(
            object.entries.iter().map(|(k, v)| (k.clone(), to_tiny(v))).collect(),
        ),
    }
}

/// Flushes the instance with the text of its snapshot document.
fn flush(kvs: &Kvs<JsonBackend>, files: &mut InstanceFiles) -> Result<(), ErrorCode> {
    let text = to_tiny(&kvs.snapshot_document()).stringify().unwrap();
    kvs.flush(files, &text)
}

fn instance(pool: &mut KvsPool<JsonBackend>, id: usize) -> &mut Kvs<JsonBackend> {
    pool.slots[id].as_mut().unwrap()
}

fn backend(max: usize) -> JsonBackend {
    JsonBackendBuilder::new().snapshot_max_count(max).build()
}

fn defaults_files(text: &str, max: usize) -> InstanceFiles {
    let mut files = InstanceFiles::new(max);
    files.defaults = SnapshotFiles { payload: Some(text.to_string()), digest: Some(seal(text)) };
    files
}

#[test]
fn test_basic_round_trip() {
    let mut files = InstanceFiles::new(3);
    {
        let mut pool: KvsPool<JsonBackend> = KvsPool::new();
        let id = KvsBuilder::new(InstanceId(0)).kvs_load(KvsLoad::Ignored).build(&mut pool, &files);
        assert_eq!(id, Ok(InstanceId(0)));
        let kvs = instance(&mut pool, 0);
        kvs.set_value("number", KvsValue::F64(123.0f64.to_bits())).unwrap();
        kvs.set_value("bool", true).unwrap();
        flush(kvs, &mut files).unwrap();
    }
    let mut pool: KvsPool<JsonBackend> = KvsPool::new();
    KvsBuilder::new(InstanceId(0)).kvs_load(KvsLoad::Required).build(&mut pool, &files).unwrap();
    let kvs = instance(&mut pool, 0);
    match kvs.get_value("number").unwrap() {
        KvsValue::F64(bits) => assert_eq!(f64::from_bits(bits), 123.0),
        other => panic!("not a float: {:?}", other),
    }
    assert_eq!(kvs.get_value_as::<bool>("bool"), Ok(true));
}

#[test]
fn test_snapshot_counting() {
    let mut files = InstanceFiles::new(3);
    let mut pool: KvsPool<JsonBackend> = KvsPool::new();
    KvsBuilder::new(InstanceId(0)).backend(backend(3)).build(&mut pool, &files).unwrap();
    let kvs = instance(&mut pool, 0);
    assert_eq!(kvs.snapshot_count(&files), 0);
    assert_eq!(kvs.snapshot_max_count(), 3);
    let mut counts = vec![];
    for i in 0..5u32 {
        kvs.set_value("c", i).unwrap();
        flush(kvs, &mut files).unwrap();
        counts.push(kvs.snapshot_count(&files));
        for slot in 0..3 {
            let there = slot < kvs.snapshot_count(&files);
            assert_eq!(files.snapshots[slot].payload.is_some(), there);
            assert_eq!(files.snapshots[slot].digest.is_some(), there);
        }
    }
    assert_eq!(counts, vec![1, 2, 3, 3, 3]);
}

#[test]
fn test_snapshot_restore() {
    let mut files = InstanceFiles::new(3);
    let mut pool: KvsPool<JsonBackend> = KvsPool::new();
    KvsBuilder::new(InstanceId(0)).backend(backend(3)).build(&mut pool, &files).unwrap();
    let kvs = instance(&mut pool, 0);
    for i in 0..5u32 {
        kvs.set_value("c", i).unwrap();
        flush(kvs, &mut files).unwrap();
    }
    assert_eq!(kvs.snapshot_restore(&files, SnapshotId(2)), Ok(()));
    assert_eq!(kvs.get_value_as::<u32>("c"), Ok(2));
    assert_eq!(kvs.snapshot_restore(&files, SnapshotId(1)), Ok(()));
    assert_eq!(kvs.get_value_as::<u32>("c"), Ok(3));
    assert_eq!(kvs.snapshot_restore(&files, SnapshotId(0)), Err(ErrorCode::InvalidSnapshotId));
    assert_eq!(kvs.snapshot_restore(&files, SnapshotId(3)), Err(ErrorCode::InvalidSnapshotId));
    assert_eq!(kvs.snapshot_restore(&files, SnapshotId(100)), Err(ErrorCode::InvalidSnapshotId));
    assert_eq!(kvs.get_value_as::<u32>("c"), Ok(3));
}

#[test]
fn test_restore_needs_a_snapshot() {
    let mut files = InstanceFiles::new(3);
    let mut pool: KvsPool<JsonBackend> = KvsPool::new();
    KvsBuilder::new(InstanceId(0)).build(&mut pool, &files).unwrap();
    let kvs = instance(&mut pool, 0);
    assert_eq!(kvs.snapshot_restore(&files, SnapshotId(1)), Err(ErrorCode::InvalidSnapshotId));
    kvs.set_value("c", 1u32).unwrap();
    flush(kvs, &mut files).unwrap();
    assert_eq!(kvs.snapshot_count(&files), 1);
    assert_eq!(kvs.snapshot_restore(&files, SnapshotId(1)), Err(ErrorCode::InvalidSnapshotId));
}

#[test]
fn test_integrity() {
    let mut files = InstanceFiles::new(3);
    {
        let mut pool: KvsPool<JsonBackend> = KvsPool::new();
        KvsBuilder::new(InstanceId(1)).build(&mut pool, &files).unwrap();
        let kvs = instance(&mut pool, 1);
        kvs.set_value("k", "v").unwrap();
        flush(kvs, &mut files).unwrap();
    }
    let digest = files.snapshots[0].digest.clone().unwrap();
    assert_eq!(digest, seal(files.snapshots[0].payload.as_ref().unwrap()));
    files.snapshots[0].digest = Some(vec![0, 0, 0, 0]);
    let mut pool: KvsPool<JsonBackend> = KvsPool::new();
    let result = KvsBuilder::new(InstanceId(1)).kvs_load(KvsLoad::Required).build(&mut pool, &files);
    assert_eq!(result, Err(ErrorCode::ValidationFailed));
    assert!(pool.get(InstanceId(1)).is_none());
    let optional = KvsBuilder::new(InstanceId(1)).build(&mut pool, &files);
    assert_eq!(optional, Err(ErrorCode::ValidationFailed));
    files.snapshots[0].digest = None;
    let missing = KvsBuilder::new(InstanceId(1)).kvs_load(KvsLoad::Required).build(&mut pool, &files);
    assert_eq!(missing, Err(ErrorCode::FileNotFound));
}

#[test]
fn test_defaults_required_missing() {
    let files = InstanceFiles::new(3);
    let mut pool: KvsPool<JsonBackend> = KvsPool::new();
    let result =
        KvsBuilder::new(InstanceId(0)).defaults(KvsDefaults::Required).build(&mut pool, &files);
    assert_eq!(result, Err(ErrorCode::FileNotFound));
    let optional =
        KvsBuilder::new(InstanceId(0)).defaults(KvsDefaults::Optional).build(&mut pool, &files);
    assert_eq!(optional, Ok(InstanceId(0)));
}

#[test]
fn test_kvs_required_missing() {
    let files = InstanceFiles::new(3);
    let mut pool: KvsPool<JsonBackend> = KvsPool::new();
    let result = KvsBuilder::new(InstanceId(0)).kvs_load(KvsLoad::Required).build(&mut pool, &files);
    assert_eq!(result, Err(ErrorCode::FileNotFound));
}

#[test]
fn test_parameters_mismatch() {
    let files = InstanceFiles::new(3);
    let mut pool: KvsPool<JsonBackend> = KvsPool::new();
    let first = KvsBuilder::new(InstanceId(2)).defaults(KvsDefaults::Ignored).build(&mut pool, &files);
    assert_eq!(first, Ok(InstanceId(2)));
    let second =
        KvsBuilder::new(InstanceId(2)).defaults(KvsDefaults::Optional).build(&mut pool, &files);
    assert_eq!(second, Err(ErrorCode::InstanceParametersMismatch));
    let load = KvsBuilder::new(InstanceId(2)).kvs_load(KvsLoad::Required).build(&mut pool, &files);
    assert_eq!(load, Err(ErrorCode::InstanceParametersMismatch));
    let other_backend = KvsBuilder::new(InstanceId(2)).backend(backend(5)).build(&mut pool, &files);
    assert_eq!(other_backend, Err(ErrorCode::InstanceParametersMismatch));
}

#[test]
fn test_unset_options_inherit() {
    let files = InstanceFiles::new(3);
    let mut pool: KvsPool<JsonBackend> = KvsPool::new();
    KvsBuilder::new(InstanceId(2))
        .defaults(KvsDefaults::Ignored)
        .kvs_load(KvsLoad::Ignored)
        .backend(backend(3))
        .build(&mut pool, &files)
        .unwrap();
    assert_eq!(KvsBuilder::new(InstanceId(2)).build(&mut pool, &files), Ok(InstanceId(2)));
    let same = KvsBuilder::new(InstanceId(2))
        .defaults(KvsDefaults::Ignored)
        .backend(backend(3))
        .build(&mut pool, &files);
    assert_eq!(same, Ok(InstanceId(2)));
    let parameters = pool.get(InstanceId(2)).unwrap().parameters();
    assert_eq!(parameters.defaults, KvsDefaults::Ignored);
    assert_eq!(parameters.kvs_load, KvsLoad::Ignored);
    assert_eq!(parameters.instance_id, InstanceId(2));
}

#[test]
fn test_new_instance_gets_the_defaults_of_the_builder() {
    let files = InstanceFiles::new(3);
    let mut pool: KvsPool<JsonBackend> = KvsPool::new();
    KvsBuilder::new(InstanceId(4)).build(&mut pool, &files).unwrap();
    let parameters = pool.get(InstanceId(4)).unwrap().parameters();
    assert_eq!(parameters.defaults, KvsDefaults::Optional);
    assert_eq!(parameters.kvs_load, KvsLoad::Optional);
    assert_eq!(parameters.backend.snapshot_max_count(), 3);
    assert_eq!(parameters.backend.directory(), "");
}

#[test]
fn test_invalid_instance_id() {
    let files = InstanceFiles::new(3);
    let mut pool: KvsPool<JsonBackend> = KvsPool::new();
    assert_eq!(KvsBuilder::<JsonBackend>::max_instances(), 10);
    assert_eq!(
        KvsBuilder::new(InstanceId(10)).build(&mut pool, &files),
        Err(ErrorCode::InvalidInstanceId)
    );
    assert_eq!(KvsBuilder::new(InstanceId(9)).build(&mut pool, &files), Ok(InstanceId(9)));
}

#[test]
fn test_instance_identity() {
    let files = InstanceFiles::new(3);
    let mut pool: KvsPool<JsonBackend> = KvsPool::new();
    let first = KvsBuilder::new(InstanceId(3)).build(&mut pool, &files).unwrap();
    instance(&mut pool, first.0).set_value("shared", 7i32).unwrap();
    let second = KvsBuilder::new(InstanceId(3)).build(&mut pool, &files).unwrap();
    assert_eq!(first, second);
    assert_eq!(instance(&mut pool, second.0).get_value_as::<i32>("shared"), Ok(7));
    KvsBuilder::new(InstanceId(5)).build(&mut pool, &files).unwrap();
    assert_eq!(instance(&mut pool, 5).key_exists("shared"), Ok(false));
}

#[test]
fn test_defaults_fallback() {
    let files = defaults_files(r#"{"k":{"t":"i32","v":5},"only":{"t":"str","v":"d"}}"#, 3);
    let mut pool: KvsPool<JsonBackend> = KvsPool::new();
    KvsBuilder::new(InstanceId(0)).defaults(KvsDefaults::Required).build(&mut pool, &files).unwrap();
    let kvs = instance(&mut pool, 0);
    assert_eq!(kvs.get_value_as::<i32>("k"), Ok(5));
    assert_eq!(kvs.is_value_default("k"), Ok(true));
    assert_eq!(kvs.key_exists("k"), Ok(false));
    assert_eq!(kvs.get_default_value("k").map(|v| format!("{:?}", v)), Ok("I32(5)".to_string()));
    kvs.set_value("k", 9i32).unwrap();
    assert_eq!(kvs.is_value_default("k"), Ok(false));
    assert_eq!(kvs.get_value_as::<i32>("k"), Ok(9));
    assert_eq!(kvs.get_default_value("k").map(|v| format!("{:?}", v)), Ok("I32(5)".to_string()));
    assert_eq!(kvs.reset_key("k"), Ok(()));
    assert_eq!(kvs.get_value_as::<i32>("k"), Ok(5));
    assert_eq!(kvs.is_value_default("k"), Ok(true));
    kvs.set_value("plain", 1i32).unwrap();
    assert_eq!(kvs.reset_key("plain"), Err(ErrorCode::KeyDefaultNotFound));
    assert_eq!(kvs.get_value_as::<i32>("plain"), Ok(1));
    assert_eq!(kvs.is_value_default("nowhere"), Err(ErrorCode::KeyNotFound));
    assert!(kvs.get_default_value("plain").is_err_and(|e| e == ErrorCode::KeyNotFound));
    kvs.reset().unwrap();
    assert_eq!(kvs.get_all_keys(), Ok(vec![]));
    assert_eq!(kvs.get_value_as::<String>("only"), Ok("d".to_string()));
}

#[test]
fn test_zero_snapshot_flush() {
    let mut files = InstanceFiles::new(0);
    let mut pool: KvsPool<JsonBackend> = KvsPool::new();
    KvsBuilder::new(InstanceId(0)).backend(backend(0)).build(&mut pool, &files).unwrap();
    let kvs = instance(&mut pool, 0);
    assert_eq!(kvs.snapshot_max_count(), 0);
    for i in 0..3i32 {
        kvs.set_value("c", i).unwrap();
        assert_eq!(flush(kvs, &mut files), Ok(()));
        assert_eq!(kvs.snapshot_count(&files), 0);
        assert!(files.snapshots.is_empty());
    }
    assert_eq!(kvs.snapshot_restore(&files, SnapshotId(1)), Err(ErrorCode::InvalidSnapshotId));
}

#[test]
fn test_single_snapshot_is_overwritten() {
    let mut files = InstanceFiles::new(1);
    let mut pool: KvsPool<JsonBackend> = KvsPool::new();
    KvsBuilder::new(InstanceId(0)).backend(backend(1)).build(&mut pool, &files).unwrap();
    let kvs = instance(&mut pool, 0);
    for i in 0..3i32 {
        kvs.set_value("c", i).unwrap();
        flush(kvs, &mut files).unwrap();
        assert_eq!(kvs.snapshot_count(&files), 1);
    }
    let map = backend(1).load_kvs(&files, InstanceId(0), SnapshotId(0)).unwrap();
    assert!(matches!(map.get("c"), Some(KvsValue::I32(2))));
}

#[test]
fn test_rotation_detects_a_torn_snapshot() {
    let mut files = InstanceFiles::new(3);
    let json = backend(3);
    json.flush(&mut files, "{}").unwrap();
    json.flush(&mut files, r#"{"a":{"t":"null","v":null}}"#).unwrap();
    files.snapshots[0].digest = None;
    assert_eq!(json.flush(&mut files, "{}"), Err(ErrorCode::IntegrityCorrupted));
    assert_eq!(files.snapshots[2].payload.as_deref(), Some("{}"));
    assert!(files.snapshots[1].payload.is_none());
    assert!(files.snapshots[0].payload.is_some());
    files.snapshots[0].payload = None;
    assert_eq!(json.flush(&mut files, "{}"), Ok(()));
    assert_eq!(json.snapshot_count(&files), 1);
    files.snapshots[0].payload = None;
    assert_eq!(json.snapshot_rotate(&mut files), Err(ErrorCode::IntegrityCorrupted));
}

#[test]
fn test_flush_keeps_the_history() {
    let mut files = InstanceFiles::new(3);
    let json = backend(3);
    json.flush(&mut files, "1").unwrap();
    json.flush(&mut files, "2").unwrap();
    assert_eq!(files.snapshots[0].payload.as_deref(), Some("2"));
    assert_eq!(files.snapshots[1].payload.as_deref(), Some("1"));
    assert_eq!(files.snapshots[1].digest, Some(seal("1")));
    assert!(files.snapshots[2].payload.is_none());
    json.flush(&mut files, "3").unwrap();
    json.flush(&mut files, "4").unwrap();
    assert_eq!(files.snapshots[0].payload.as_deref(), Some("4"));
    assert_eq!(files.snapshots[1].payload.as_deref(), Some("3"));
    assert_eq!(files.snapshots[2].payload.as_deref(), Some("2"));
    assert_eq!(files.snapshots[2].digest, Some(seal("2")));
}

#[test]
fn test_keys_and_removal() {
    let files = InstanceFiles::new(3);
    let mut pool: KvsPool<JsonBackend> = KvsPool::new();
    KvsBuilder::new(InstanceId(0)).build(&mut pool, &files).unwrap();
    let kvs = instance(&mut pool, 0);
    kvs.set_value("a", 1i32).unwrap();
    kvs.set_value("b", "text").unwrap();
    kvs.set_value("a", 2i32).unwrap();
    let mut keys = kvs.get_all_keys().unwrap();
    keys.sort();
    assert_eq!(keys, vec!["a".to_string(), "b".to_string()]);
    assert_eq!(kvs.key_exists("a"), Ok(true));
    assert_eq!(kvs.get_value_as::<i32>("a"), Ok(2));
    assert_eq!(kvs.remove_key("a"), Ok(()));
    assert_eq!(kvs.remove_key("a"), Err(ErrorCode::KeyNotFound));
    assert_eq!(kvs.key_exists("a"), Ok(false));
    assert!(kvs.get_value("a").is_err_and(|e| e == ErrorCode::KeyNotFound));
    assert_eq!(kvs.get_value_as::<i32>("a"), Err(ErrorCode::KeyNotFound));
    assert_eq!(kvs.get_value_as::<i32>("b"), Err(ErrorCode::ConversionFailed));
    assert_eq!(kvs.get_value_as::<String>("b"), Ok("text".to_string()));
}

#[test]
fn test_map_with_tag_keys_does_not_come_back() {
    let mut files = InstanceFiles::new(3);
    let mut pool: KvsPool<JsonBackend> = KvsPool::new();
    KvsBuilder::new(InstanceId(0)).build(&mut pool, &files).unwrap();
    let kvs = instance(&mut pool, 0);
    kvs.set_value("t", 1i32).unwrap();
    kvs.set_value("x", 2i32).unwrap();
    flush(kvs, &mut files).unwrap();
    let loaded = backend(3).load_kvs(&files, InstanceId(0), SnapshotId(0));
    assert!(loaded.is_err_and(|e| e == ErrorCode::JsonParserError));
}

#[test]
fn test_one_changed_byte_fails_validation() {
    let mut files = InstanceFiles::new(3);
    let mut pool: KvsPool<JsonBackend> = KvsPool::new();
    KvsBuilder::new(InstanceId(1)).build(&mut pool, &files).unwrap();
    let kvs = instance(&mut pool, 1);
    kvs.set_value("k", "v").unwrap();
    kvs.set_value("n", 7u32).unwrap();
    flush(kvs, &mut files).unwrap();
    let saved = files.snapshots[0].payload.clone().unwrap();
    let json = backend(3);
    assert!(json.load_kvs(&files, InstanceId(1), SnapshotId(0)).is_ok());
    for at in 0..saved.len() {
        let mut bytes = saved.clone().into_bytes();
        bytes[at] = if bytes[at] == b'x' { b'y' } else { b'x' };
        files.snapshots[0].payload = Some(String::from_utf8(bytes).unwrap());
        let loaded = json.load_kvs(&files, InstanceId(1), SnapshotId(0));
        assert!(loaded.is_err_and(|e| e == ErrorCode::ValidationFailed), "byte {}", at);
    }
    files.snapshots[0].payload = Some(saved);
    for at in 0..4 {
        let mut digest = files.snapshots[0].digest.clone().unwrap();
        digest[at] = digest[at].wrapping_add(1);
        let mut changed = InstanceFiles::new(3);
        changed.snapshots[0] =
            SnapshotFiles { payload: files.snapshots[0].payload.clone(), digest: Some(digest) };
        let loaded = json.load_kvs(&changed, InstanceId(1), SnapshotId(0));
        assert!(loaded.is_err_and(|e| e == ErrorCode::ValidationFailed), "digest byte {}", at);
    }
}

#[test]
fn test_rotation_plan() {
    let json = backend(4);
    let there = SnapshotPresence { payload: true, digest: true };
    let none = SnapshotPresence { payload: false, digest: false };
    let torn = SnapshotPresence { payload: true, digest: false };
    let plan = json.rotation_plan(&vec![there, there, none, none]);
    assert_eq!(plan.moves, vec![1, 0]);
    assert!(plan.complete);
    let full = json.rotation_plan(&vec![there, there, there, there]);
    assert_eq!(full.moves, vec![2, 1, 0]);
    assert!(full.complete);
    let empty = json.rotation_plan(&vec![none, none, none, none]);
    assert!(empty.moves.is_empty() && empty.complete);
    let stopped = json.rotation_plan(&vec![there, torn, there, none]);
    assert_eq!(stopped.moves, vec![2]);
    assert!(!stopped.complete);
    let last = json.rotation_plan(&vec![there, there, there, torn]);
    assert_eq!(last.moves, vec![2, 1, 0]);
    assert!(last.complete);
    assert_eq!(json.count_present(&vec![there, torn, none, there]), 2);
    assert_eq!(json.count_present(&vec![none, there, there, there]), 0);
    assert_eq!(json.count_present(&vec![there, there, there, there]), 4);
    assert!(!json.is_restorable(&vec![there, there, none, none], SnapshotId(0)));
    assert!(json.is_restorable(&vec![there, there, none, none], SnapshotId(1)));
    assert!(!json.is_restorable(&vec![there, there, none, none], SnapshotId(2)));
    let none_at_all = backend(0).rotation_plan(&vec![]);
    assert!(none_at_all.moves.is_empty() && none_at_all.complete);
}

#[test]
fn test_restore_by_presence() {
    let mut files = InstanceFiles::new(3);
    let mut pool: KvsPool<JsonBackend> = KvsPool::new();
    KvsBuilder::new(InstanceId(0)).build(&mut pool, &files).unwrap();
    let kvs = instance(&mut pool, 0);
    for i in 0..2u32 {
        kvs.set_value("c", i).unwrap();
        flush(kvs, &mut files).unwrap();
    }
    let present: Vec<SnapshotPresence> = files
        .snapshots
        .iter()
        .map(|slot| SnapshotPresence {
            payload: slot.payload.is_some(),
            digest: slot.digest.is_some(),
        })
        .collect();
    assert_eq!(kvs.snapshot_count(&files), backend(3).count_present(&present));
    let plan = kvs.flush_plan(&present).unwrap();
    assert_eq!(plan.moves, vec![1, 0]);
    assert!(plan.complete);
    assert_eq!(
        kvs.snapshot_restore_present(&present, &files.snapshots[0], SnapshotId(0)),
        Err(ErrorCode::InvalidSnapshotId)
    );
    assert_eq!(
        kvs.snapshot_restore_present(&present, &files.snapshots[1], SnapshotId(2)),
        Err(ErrorCode::InvalidSnapshotId)
    );
    assert_eq!(kvs.get_value_as::<u32>("c"), Ok(1));
    assert_eq!(kvs.snapshot_restore_present(&present, &files.snapshots[1], SnapshotId(1)), Ok(()));
    assert_eq!(kvs.get_value_as::<u32>("c"), Ok(0));
    let mut pool_zero: KvsPool<JsonBackend> = KvsPool::new();
    KvsBuilder::new(InstanceId(0)).backend(backend(0)).build(&mut pool_zero, &files).unwrap();
    assert!(instance(&mut pool_zero, 0).flush_plan(&vec![]).is_none());
}

#[test]
fn test_conversions() {
    assert!(matches!(5i8.to_kvs(), Ok(KvsValue::I32(5))));
    assert!(matches!((-5i16).to_kvs(), Ok(KvsValue::I32(-5))));
    assert!(matches!(5u8.to_kvs(), Ok(KvsValue::U32(5))));
    assert!(matches!(5u16.to_kvs(), Ok(KvsValue::U32(5))));
    assert!(matches!(5isize.to_kvs(), Ok(KvsValue::I64(5))));
    assert!(matches!(5usize.to_kvs(), Ok(KvsValue::U64(5))));
    assert!(matches!(().to_kvs(), Ok(KvsValue::Null)));
    assert!(matches!("s".to_kvs(), Ok(KvsValue::String(s)) if s == "s"));
    assert_eq!(i8::from_kvs(&KvsValue::I32(127)), Ok(127));
    assert_eq!(i8::from_kvs(&KvsValue::I32(128)), Err(ErrorCode::ConversionFailed));
    assert_eq!(i8::from_kvs(&KvsValue::I32(-129)), Err(ErrorCode::ConversionFailed));
    assert_eq!(i16::from_kvs(&KvsValue::I32(-32768)), Ok(-32768));
    assert_eq!(u8::from_kvs(&KvsValue::U32(256)), Err(ErrorCode::ConversionFailed));
    assert_eq!(u16::from_kvs(&KvsValue::U32(65535)), Ok(65535));
    assert_eq!(u16::from_kvs(&KvsValue::U32(65536)), Err(ErrorCode::ConversionFailed));
    assert_eq!(usize::from_kvs(&KvsValue::U64(12)), Ok(12));
    assert_eq!(isize::from_kvs(&KvsValue::I64(-12)), Ok(-12));
    assert_eq!(<()>::from_kvs(&KvsValue::Null), Ok(()));
    let wrong = ErrorCode::DeserializationFailed("Invalid variant provided".to_string());
    assert_eq!(i32::from_kvs(&KvsValue::U32(1)), Err(wrong.clone()));
    assert_eq!(u64::from_kvs(&KvsValue::I64(1)), Err(wrong.clone()));
    assert_eq!(bool::from_kvs(&KvsValue::Null), Err(wrong.clone()));
    assert_eq!(String::from_kvs(&KvsValue::Boolean(true)), Err(wrong.clone()));
    assert_eq!(<()>::from_kvs(&KvsValue::I32(0)), Err(wrong.clone()));
    assert!(Vec::<KvsValue>::from_kvs(&KvsValue::Null).is_err_and(|e| e == wrong));
    let items = Vec::<KvsValue>::from_kvs(&KvsValue::Array(vec![KvsValue::I32(1)])).unwrap();
    assert!(matches!(items[..], [KvsValue::I32(1)]));
    assert!(KvsMap::from_kvs(&KvsValue::Object(KvsMap::new())).is_ok());
}

#[test]
fn test_map_operations() {
    let mut map = KvsMap::new();
    assert_eq!(map.len(), 0);
    map.insert("a".to_string(), KvsValue::I32(1));
    map.insert("b".to_string(), KvsValue::I32(2));
    map.insert("a".to_string(), KvsValue::I32(3));
    assert_eq!(map.len(), 2);
    assert!(matches!(map.get("a"), Some(KvsValue::I32(3))));
    assert!(map.get("c").is_none());
    assert_eq!(map.position("b"), Some(1));
    assert!(matches!(map.remove("a"), Some(KvsValue::I32(3))));
    assert!(map.remove("a").is_none());
    assert!(!map.contains_key("a"));
    assert_eq!(map.keys(), vec!["b".to_string()]);
    let copy = map.clone();
    assert!(matches!(copy.get("b"), Some(KvsValue::I32(2))));
    let deep = KvsValue::Array(vec![KvsValue::Object(copy)]).clone();
    assert_eq!(format!("{:?}", deep), format!("{:?}", KvsValue::Array(vec![KvsValue::Object(map)])));
}

#[test]
fn test_pool_validity() {
    let files = InstanceFiles::new(3);
    let mut pool: KvsPool<JsonBackend> = KvsPool::new();
    assert!(pool.is_valid());
    KvsBuilder::new(InstanceId(1)).build(&mut pool, &files).unwrap();
    assert!(pool.is_valid());
    assert!(instance(&mut pool, 1).is_valid());
    let moved = pool.slots[1].take();
    pool.slots[2] = moved;
    assert!(!pool.is_valid());
    pool.slots.pop();
    assert!(!pool.is_valid());
}

/// Flushes each payload through the backend interface and gives the snapshot counts.
fn counts_through_interface<B: KvsBackend>(
    backend: &B,
    storage: &mut B::Storage,
    payloads: &[&str],
) -> Vec<usize> {
    let mut counts = vec![];
    for payload in payloads {
        backend.flush(storage, payload).unwrap();
        counts.push(backend.snapshot_count(storage));
    }
    counts
}

#[test]
fn test_backend_interface() {
    let json = backend(2);
    let mut files = InstanceFiles::new(2);
    assert_eq!(counts_through_interface(&json, &mut files, &["{}", "{}", "{}"]), vec![1, 2, 2]);
    assert_eq!(json.snapshot_max_count(), 2);
    assert!(json.load_kvs(&files, InstanceId(0), SnapshotId(1)).is_ok_and(|map| map.len() == 0));
    assert!(json
        .load_kvs(&files, InstanceId(0), SnapshotId(2))
        .is_err_and(|e| e == ErrorCode::FileNotFound));
    assert!(json.load_defaults(&files, InstanceId(0)).is_err_and(|e| e == ErrorCode::FileNotFound));
    assert!(json
        .snapshot_restore(&files, InstanceId(0), SnapshotId(0))
        .is_err_and(|e| e == ErrorCode::InvalidSnapshotId));
    assert!(json.snapshot_restore(&files, InstanceId(0), SnapshotId(1)).is_ok());
    assert!(json
        .snapshot_restore(&files, InstanceId(0), SnapshotId(2))
        .is_err_and(|e| e == ErrorCode::InvalidSnapshotId));
}

#[test]
fn test_payload_reads_back() {
    let mut files = InstanceFiles::new(3);
    let mut pool: KvsPool<JsonBackend> = KvsPool::new();
    KvsBuilder::new(InstanceId(0)).build(&mut pool, &files).unwrap();
    let kvs = instance(&mut pool, 0);
    kvs.set_value("a", 1i32).unwrap();
    kvs.set_value("b", KvsValue::Array(vec![KvsValue::F64(0.5f64.to_bits()), KvsValue::Null])).unwrap();
    let text = to_tiny(&kvs.snapshot_document()).stringify().unwrap();
    assert!(JsonBackend::reads_back(&text, &kvs.data.kvs_map));
    flush(kvs, &mut files).unwrap();
    let loaded = backend(3).load_kvs(&files, InstanceId(0), SnapshotId(0)).unwrap();
    assert_eq!(loaded, kvs.data.kvs_map);
    assert!(!JsonBackend::reads_back("{}", &kvs.data.kvs_map));
    assert!(!JsonBackend::reads_back("{", &kvs.data.kvs_map));
    assert!(!JsonBackend::reads_back("[1]", &kvs.data.kvs_map));
    assert!(JsonBackend::reads_back("{}", &KvsMap::new()));
    kvs.set_value("big", (1u64 << 53) + 1).unwrap();
    let lossy = to_tiny(&kvs.snapshot_document()).stringify().unwrap();
    assert!(!JsonBackend::reads_back(&lossy, &kvs.data.kvs_map));
    kvs.remove_key("big").unwrap();
    kvs.set_value("t", 1i32).unwrap();
    let tagged = to_tiny(&kvs.snapshot_document()).stringify().unwrap();
    assert!(!JsonBackend::reads_back(&tagged, &kvs.data.kvs_map));
}
