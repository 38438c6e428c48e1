use rust_kvs::error_code::ErrorCode;
use rust_kvs::kvs_api::SnapshotId;
use rust_kvs::kvs_mock::MockKvs;
use rust_kvs::kvs_value::{KvsMap, KvsValue};
use rust_kvs::kvs_value_get::string_value;

fn sample_map() -> KvsMap {
    let mut map = KvsMap::new();
    map.insert("a".to_string(), KvsValue::I32(1));
    map.insert("b".to_string(), KvsValue::Array(vec![KvsValue::Null, KvsValue::Boolean(true)]));
    map
}

#[test]
fn test_value_from_primitives() {
    assert!(matches!(KvsValue::from(5i32), KvsValue::I32(5)));
    assert!(matches!(KvsValue::from(5u32), KvsValue::U32(5)));
    assert!(matches!(KvsValue::from(-5i64), KvsValue::I64(-5)));
    assert!(matches!(KvsValue::from(5u64), KvsValue::U64(5)));
    assert!(matches!(KvsValue::from(true), KvsValue::Boolean(true)));
    assert!(matches!(KvsValue::from(()), KvsValue::Null));
    assert!(matches!(KvsValue::from("x".to_string()), KvsValue::String(s) if s == "x"));
    assert!(matches!(string_value("y"), KvsValue::String(s) if s == "y"));
    assert!(matches!(KvsValue::from(vec![KvsValue::Null]), KvsValue::Array(items) if items.len() == 1));
    assert!(matches!(KvsValue::from(sample_map()), KvsValue::Object(map) if map.len() == 2));
}

#[test]
fn test_value_get() {
    assert_eq!(KvsValue::I32(5).get::<i32>(), Some(&5));
    assert_eq!(KvsValue::I32(5).get::<u32>(), None);
    assert_eq!(KvsValue::I32(5).get::<i64>(), None);
    assert_eq!(KvsValue::U32(5).get::<u32>(), Some(&5));
    assert_eq!(KvsValue::I64(5).get::<i64>(), Some(&5));
    assert_eq!(KvsValue::U64(5).get::<u64>(), Some(&5));
    assert_eq!(KvsValue::Boolean(false).get::<bool>(), Some(&false));
    assert_eq!(KvsValue::String("s".to_string()).get::<String>(), Some(&"s".to_string()));
    assert_eq!(KvsValue::Null.get::<()>(), Some(&()));
    assert_eq!(KvsValue::Null.get::<bool>(), None);
    assert_eq!(KvsValue::Boolean(true).get::<()>(), None);
    assert_eq!(KvsValue::Array(vec![]).get::<Vec<KvsValue>>().map(|items| items.len()), Some(0));
    assert_eq!(KvsValue::Object(sample_map()).get::<KvsMap>().map(|map| map.len()), Some(2));
    assert!(KvsValue::Array(vec![]).get::<KvsMap>().is_none());
}

#[test]
fn test_value_equality() {
    assert!(KvsValue::I32(1).same_as(&KvsValue::I32(1)));
    assert!(!KvsValue::I32(1).same_as(&KvsValue::I32(2)));
    assert!(!KvsValue::I32(1).same_as(&KvsValue::U32(1)));
    assert!(!KvsValue::I64(1).same_as(&KvsValue::U64(1)));
    assert!(KvsValue::Null.same_as(&KvsValue::Null));
    assert!(!KvsValue::Null.same_as(&KvsValue::Boolean(false)));
    assert!(KvsValue::F64(1.5f64.to_bits()).same_as(&KvsValue::F64(1.5f64.to_bits())));
    assert!(KvsValue::F64(0.0f64.to_bits()).same_as(&KvsValue::F64((-0.0f64).to_bits())));
    assert!(!KvsValue::F64(f64::NAN.to_bits()).same_as(&KvsValue::F64(f64::NAN.to_bits())));
    assert!(!KvsValue::F64(1.5f64.to_bits()).same_as(&KvsValue::F64(f64::NAN.to_bits())));
    assert!(!KvsValue::F64(1.5f64.to_bits()).same_as(&KvsValue::F64((-1.5f64).to_bits())));
    assert!(KvsValue::F64(f64::INFINITY.to_bits()).same_as(&KvsValue::F64(f64::INFINITY.to_bits())));
    assert!(!KvsValue::F64(1.5f64.to_bits()).same_as(&KvsValue::U64(1.5f64.to_bits())));
    assert!(string_value("a").same_as(&string_value("a")));
    assert!(!string_value("a").same_as(&string_value("b")));
    let array = KvsValue::Array(vec![KvsValue::I32(1), string_value("x")]);
    assert!(array.same_as(&array.clone()));
    assert!(!array.same_as(&KvsValue::Array(vec![KvsValue::I32(1)])));
    assert!(!array.same_as(&KvsValue::Array(vec![KvsValue::I32(1), string_value("y")])));
}

#[test]
fn test_map_equality_ignores_the_order() {
    let map = sample_map();
    let mut other = KvsMap::new();
    other.insert("b".to_string(), KvsValue::Array(vec![KvsValue::Null, KvsValue::Boolean(true)]));
    other.insert("a".to_string(), KvsValue::I32(1));
    assert!(map.same_as(&other));
    assert!(other.same_as(&map));
    assert!(KvsValue::Object(map.clone()).same_as(&KvsValue::Object(other.clone())));
    other.insert("c".to_string(), KvsValue::Null);
    assert!(!map.same_as(&other));
    assert!(!other.same_as(&map));
    other.remove("c");
    other.insert("a".to_string(), KvsValue::I32(2));
    assert!(!map.same_as(&other));
    assert!(KvsMap::new().same_as(&KvsMap::new()));
    assert!(!KvsMap::new().same_as(&map));
    assert_eq!(map.last_position(&"b".to_string()), Some(1));
    assert_eq!(map.last_position(&"z".to_string()), None);
}

#[test]
fn test_mock() {
    let mut mock = MockKvs::default();
    assert_eq!(mock.set_value("a", 1i32), Ok(()));
    assert_eq!(mock.set_value("b", "text"), Ok(()));
    assert_eq!(mock.key_exists("a"), Ok(true));
    assert_eq!(mock.get_value_as::<i32>("a"), Ok(1));
    assert_eq!(mock.get_value_as::<i32>("b"), Err(ErrorCode::ConversionFailed));
    assert_eq!(mock.get_value_as::<i32>("c"), Err(ErrorCode::KeyNotFound));
    assert!(mock.get_value("a").is_ok_and(|v| v.same_as(&KvsValue::I32(1))));
    assert!(mock.get_value("c").is_err_and(|e| e == ErrorCode::KeyNotFound));
    assert!(mock.get_default_value("a").is_err_and(|e| e == ErrorCode::KeyNotFound));
    assert_eq!(mock.is_value_default("a"), Ok(false));
    let mut keys = mock.get_all_keys().unwrap();
    keys.sort();
    assert_eq!(keys, vec!["a".to_string(), "b".to_string()]);
    assert_eq!(mock.reset_key("a"), Ok(()));
    assert_eq!(mock.reset_key("a"), Err(ErrorCode::KeyDefaultNotFound));
    assert_eq!(mock.remove_key("a"), Ok(()));
    assert_eq!(mock.remove_key("b"), Ok(()));
    assert_eq!(mock.key_exists("b"), Ok(false));
    assert_eq!(mock.flush(), Ok(()));
    assert_eq!(mock.snapshot_count(), 0);
    assert_eq!(mock.snapshot_max_count(), 0);
    assert_eq!(mock.snapshot_restore(SnapshotId(1)), Ok(()));
    mock.set_value("z", true).unwrap();
    assert_eq!(mock.reset(), Ok(()));
    assert_eq!(mock.get_all_keys(), Ok(vec![]));
}

#[test]
fn test_failing_mock() {
    let mut mock = MockKvs::new(sample_map(), true).unwrap();
    assert_eq!(mock.reset(), Err(ErrorCode::UnmappedError));
    assert_eq!(mock.reset_key("a"), Err(ErrorCode::UnmappedError));
    assert_eq!(mock.get_all_keys(), Err(ErrorCode::UnmappedError));
    assert_eq!(mock.key_exists("a"), Err(ErrorCode::UnmappedError));
    assert!(mock.get_value("a").is_err_and(|e| e == ErrorCode::UnmappedError));
    assert_eq!(mock.get_value_as::<i32>("a"), Err(ErrorCode::UnmappedError));
    assert!(mock.get_default_value("a").is_err_and(|e| e == ErrorCode::UnmappedError));
    assert_eq!(mock.is_value_default("a"), Err(ErrorCode::UnmappedError));
    assert_eq!(mock.set_value("a", 2i32), Err(ErrorCode::UnmappedError));
    assert_eq!(mock.remove_key("a"), Err(ErrorCode::UnmappedError));
    assert_eq!(mock.flush(), Err(ErrorCode::UnmappedError));
    assert_eq!(mock.snapshot_count(), 9999);
    assert_eq!(mock.snapshot_max_count(), 0);
    assert_eq!(mock.snapshot_restore(SnapshotId(1)), Err(ErrorCode::UnmappedError));
    assert_eq!(mock.map.len(), 2);
}

#[test]
fn test_float_equality_is_that_of_the_numbers() {
    let samples: Vec<f64> = vec![
        0.0,
        -0.0,
        1.0,
        -1.0,
        0.1,
        f64::MIN_POSITIVE,
        5e-324,
        -5e-324,
        f64::MAX,
        f64::INFINITY,
        f64::NEG_INFINITY,
        f64::NAN,
        -f64::NAN,
        f64::from_bits(0x7FF0_0000_0000_0001),
    ];
    for a in samples.iter() {
        for b in samples.iter() {
            let left = KvsValue::F64(a.to_bits());
            let right = KvsValue::F64(b.to_bits());
            assert_eq!(left == right, a == b, "{} and {}", a, b);
            let nested = KvsValue::Array(vec![KvsValue::F64(a.to_bits())]);
            let other = KvsValue::Array(vec![KvsValue::F64(b.to_bits())]);
            assert_eq!(nested == other, a == b, "{} and {} in arrays", a, b);
        }
    }
}

#[test]
fn test_equality_operator() {
    assert_eq!(KvsValue::I32(1), KvsValue::I32(1));
    assert_ne!(KvsValue::I32(1), KvsValue::I64(1));
    assert_eq!(string_value("a"), KvsValue::from("a".to_string()));
    let map = sample_map();
    let mut other = KvsMap::new();
    other.insert("b".to_string(), KvsValue::Array(vec![KvsValue::Null, KvsValue::Boolean(true)]));
    other.insert("a".to_string(), KvsValue::I32(1));
    assert_eq!(map, other);
    assert_eq!(KvsValue::Object(map.clone()), KvsValue::Object(other));
    assert_ne!(map, KvsMap::new());
    assert_eq!(map.clone(), map);
    assert_eq!(KvsValue::Array(vec![KvsValue::Object(map.clone())]).clone(), KvsValue::Array(vec![KvsValue::Object(map)]));
}

#[test]
fn test_validity() {
    let mut map = sample_map();
    assert!(map.is_valid());
    assert!(KvsMap::new().is_valid());
    map.entries.push(("a".to_string(), KvsValue::Null));
    assert!(!map.is_valid());
}

#[test]
fn test_try_from_value() {
    assert_eq!(i32::try_from(&KvsValue::I32(-3)), Ok(-3));
    assert_eq!(i32::try_from(&KvsValue::U32(3)), Err(ErrorCode::ConversionFailed));
    assert_eq!(u32::try_from(&KvsValue::U32(3)), Ok(3));
    assert_eq!(i64::try_from(&KvsValue::I64(-3)), Ok(-3));
    assert_eq!(u64::try_from(&KvsValue::U64(3)), Ok(3));
    assert_eq!(u64::try_from(&KvsValue::I64(3)), Err(ErrorCode::ConversionFailed));
    assert_eq!(bool::try_from(&KvsValue::Boolean(true)), Ok(true));
    assert_eq!(bool::try_from(&KvsValue::Null), Err(ErrorCode::ConversionFailed));
    assert_eq!(String::try_from(&string_value("s")), Ok("s".to_string()));
    assert_eq!(String::try_from(&KvsValue::Null), Err(ErrorCode::ConversionFailed));
    assert_eq!(<()>::try_from(&KvsValue::Null), Ok(()));
    assert_eq!(<()>::try_from(&KvsValue::I32(0)), Err(ErrorCode::ConversionFailed));
}
