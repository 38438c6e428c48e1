use rust_kvs::binary64::{binary64_from_int, binary64_to_whole};
use rust_kvs::error_code::ErrorCode;
use rust_kvs::file_names::{check_extension, decimal_text, join};
use rust_kvs::integrity::{matches_digest, seal};
use rust_kvs::json_backend::{JsonBackend, JsonBackendBuilder, SnapshotFiles};
use rust_kvs::json_value::{wrap, JsonNode, JsonObject};
use rust_kvs::kvs_api::{InstanceId, SnapshotId};
use rust_kvs::kvs_backend::{DynEq, KvsBackend};
use rust_kvs::kvs_value::{KvsMap, KvsValue};

fn to_tiny(node: &JsonNode) -> tinyjson::JsonValue {
    match node {
        JsonNode::Number(bits) => tinyjson::JsonValue::Number(f64::from_bits(*bits)),
        JsonNode::Boolean(b) => tinyjson::JsonValue::Boolean(*b),
        JsonNode::String(s) => tinyjson::JsonValue::String(s.clone()),
        JsonNode::Null => tinyjson::JsonValue::Null,
        JsonNode::Array(items) => tinyjson::JsonValue::Array(items.iter().map(to_tiny).collect()),
        JsonNode::Object(object) => tinyjson::JsonValue::Object(
            object.entries.iter().map(|(k, v)| (k.clone(), to_tiny(v))).collect(),
        ),
    }
}

fn files(payload: Option<&str>, digest: Option<Vec<u8>>) -> SnapshotFiles {
    SnapshotFiles { payload: payload.map(|t| t.to_string()), digest }
}

fn sealed(payload: &str) -> SnapshotFiles {
    files(Some(payload), Some(seal(payload)))
}

fn as_i32(value: Option<&KvsValue>) -> i32 {
    match value {
        Some(KvsValue::I32(n)) => *n,
        other => panic!("not an I32: {:?}", other),
    }
}

#[test]
fn test_binary64_from_int_is_the_cast() {
    let samples: Vec<i128> = vec![
        0,
        1,
        -1,
        2,
        3,
        123,
        -123,
        i32::MAX as i128,
        i32::MIN as i128,
        u32::MAX as i128,
        (1i128 << 52) - 1,
        1i128 << 52,
        (1i128 << 53) - 1,
        1i128 << 53,
        (1i128 << 53) + 1,
        (1i128 << 53) + 2,
        (1i128 << 53) + 3,
        (1i128 << 54) + 2,
        (1i128 << 54) + 6,
        i64::MAX as i128,
        i64::MIN as i128,
        u64::MAX as i128,
        (1i128 << 63) + 1024,
        (1i128 << 63) + 1025,
        (1i128 << 63) + 3072,
        -((1i128 << 60) + 129),
        9007199254740993,
        1234567890123456789,
    ];
    for n in samples {
        assert_eq!(binary64_from_int(n), (n as f64).to_bits(), "for {}", n);
    }
}

#[test]
fn test_binary64_from_int_exact_values() {
    assert_eq!(binary64_from_int(0), 0);
    assert_eq!(binary64_from_int(1), 0x3FF0_0000_0000_0000);
    assert_eq!(binary64_from_int(-2), 0xC000_0000_0000_0000);
    assert_eq!(binary64_from_int(123), 123.0f64.to_bits());
}

#[test]
fn test_binary64_to_whole_is_the_cast() {
    let samples: Vec<f64> = vec![
        0.0,
        -0.0,
        0.5,
        -0.5,
        0.999999,
        1.0,
        1.5,
        -1.5,
        1.9,
        -1.9,
        42.0,
        123.0,
        -2147483648.0,
        2147483647.0,
        4294967295.0,
        4294967296.5,
        1e10,
        -1e10,
        9007199254740992.0,
        1e18,
        1.8446744073709552e19,
        3.0e19,
        -3.0e19,
        f64::MIN_POSITIVE,
        5e-324,
    ];
    for x in samples {
        assert_eq!(binary64_to_whole(x.to_bits()), x as i128, "for {}", x);
    }
}

#[test]
fn test_binary64_to_whole_caps() {
    let cap: i128 = 1i128 << 65;
    assert_eq!(binary64_to_whole(f64::NAN.to_bits()), 0);
    assert_eq!(binary64_to_whole(f64::INFINITY.to_bits()), cap);
    assert_eq!(binary64_to_whole(f64::NEG_INFINITY.to_bits()), -cap);
    assert_eq!(binary64_to_whole(1e30f64.to_bits()), cap);
    assert_eq!(binary64_to_whole((-1e300f64).to_bits()), -cap);
    assert_eq!(binary64_to_whole(f64::MAX.to_bits()), cap);
}

#[test]
fn test_adler32_digest() {
    assert_eq!(seal("Wikipedia"), vec![0x11, 0xE6, 0x03, 0x98]);
    assert_eq!(seal(""), vec![0, 0, 0, 1]);
    assert_eq!(seal("a"), vec![0x00, 0x62, 0x00, 0x62]);
    assert!(matches_digest("Wikipedia", &vec![0x11, 0xE6, 0x03, 0x98]));
    assert!(!matches_digest("Wikipedia", &vec![0x11, 0xE6, 0x03, 0x99]));
    assert!(!matches_digest("Wikipedia", &vec![0x11, 0xE6, 0x03]));
    assert!(!matches_digest("Wikipedia", &vec![0x11, 0xE6, 0x03, 0x98, 0x00]));
    assert!(!matches_digest("Wikipedib", &vec![0x11, 0xE6, 0x03, 0x98]));
}

#[test]
fn test_adler32_digest_of_a_long_payload() {
    let text: String = "abcdefghijklmnopqrstuvwxyz0123456789".repeat(400);
    let mut a: u32 = 1;
    let mut b: u32 = 0;
    for byte in text.as_bytes() {
        a = (a + *byte as u32) % 65521;
        b = (b + a) % 65521;
    }
    let expected = (b << 16) | a;
    assert_eq!(seal(&text), expected.to_be_bytes().to_vec());
}

#[test]
fn test_file_names() {
    assert_eq!(JsonBackend::kvs_file_name(InstanceId(1), SnapshotId(0)), "kvs_1_0.json");
    assert_eq!(JsonBackend::hash_file_name(InstanceId(1), SnapshotId(0)), "kvs_1_0.hash");
    assert_eq!(JsonBackend::kvs_file_name(InstanceId(10), SnapshotId(123)), "kvs_10_123.json");
    assert_eq!(JsonBackend::defaults_file_name(InstanceId(7)), "kvs_7_default.json");
    assert_eq!(JsonBackend::defaults_hash_file_name(InstanceId(7)), "kvs_7_default.hash");
    assert_eq!(decimal_text(0), "0");
    assert_eq!(decimal_text(9), "9");
    assert_eq!(decimal_text(10), "10");
    assert_eq!(decimal_text(9876543210), "9876543210");
}

#[test]
fn test_file_paths() {
    let here = JsonBackendBuilder::new().build();
    assert_eq!(here.kvs_file_path(InstanceId(2), SnapshotId(1)), "kvs_2_1.json");
    let there = JsonBackendBuilder::new().working_dir("/var/kvs".to_string()).build();
    assert_eq!(there.kvs_file_path(InstanceId(2), SnapshotId(1)), "/var/kvs/kvs_2_1.json");
    assert_eq!(there.hash_file_path(InstanceId(2), SnapshotId(1)), "/var/kvs/kvs_2_1.hash");
    assert_eq!(there.defaults_file_path(InstanceId(2)), "/var/kvs/kvs_2_default.json");
    assert_eq!(there.defaults_hash_file_path(InstanceId(2)), "/var/kvs/kvs_2_default.hash");
    let slash = JsonBackendBuilder::new().working_dir("data/".to_string()).build();
    assert_eq!(slash.kvs_file_path(InstanceId(0), SnapshotId(0)), "data/kvs_0_0.json");
    assert_eq!(join("", "x"), "x");
    assert_eq!(join("a", "x"), "a/x");
}

#[test]
fn test_check_extension() {
    assert!(check_extension("kvs_0_0.json", "json"));
    assert!(check_extension("dir/kvs_0_0.hash", "hash"));
    assert!(check_extension("dir.d/kvs.tar.json", "json"));
    assert!(!check_extension("kvs_0_0.hash", "json"));
    assert!(!check_extension("kvs_0_0.json", "hash"));
    assert!(!check_extension("kvs_0_0", "json"));
    assert!(!check_extension(".json", "json"));
    assert!(!check_extension("dir/.json", "json"));
    assert!(!check_extension("dir.json/file", "json"));
    assert!(!check_extension("", "json"));
    assert!(!check_extension("kvs.jsonx", "json"));
    assert!(JsonBackend::check_extension("a.json", "json"));
    assert!(check_extension("dir/kvs.json/", "json"));
    assert!(check_extension("kvs.json//", "json"));
    assert!(!check_extension("dir.json/kvs/", "json"));
    assert!(!check_extension("/", "json"));
    assert!(!check_extension("//", ""));
    assert!(!check_extension(".json/", "json"));
    assert!(check_extension("a.", ""));
}

#[test]
fn test_builder_defaults() {
    let backend = JsonBackendBuilder::new().build();
    assert_eq!(backend.snapshot_max_count(), 3);
    assert_eq!(backend.directory(), "");
    let same = JsonBackendBuilder::default().build();
    assert!(backend.dyn_eq(&same));
    let other = JsonBackendBuilder::new().snapshot_max_count(4).build();
    assert!(!backend.dyn_eq(&other));
    assert_eq!(other.snapshot_max_count(), 4);
    assert!(other.dyn_eq(&other.clone()));
}

#[test]
fn test_wrapped_forms() {
    let cases: Vec<(KvsValue, &str)> = vec![
        (KvsValue::I32(-42), r#"{"t":"i32","v":-42}"#),
        (KvsValue::U32(42), r#"{"t":"u32","v":42}"#),
        (KvsValue::I64(-5000000000), r#"{"t":"i64","v":-5000000000}"#),
        (KvsValue::U64(5000000000), r#"{"t":"u64","v":5000000000}"#),
        (KvsValue::F64(1.5f64.to_bits()), r#"{"t":"f64","v":1.5}"#),
        (KvsValue::Boolean(true), r#"{"t":"bool","v":true}"#),
        (KvsValue::String("hello".to_string()), r#"{"t":"str","v":"hello"}"#),
        (KvsValue::Null, r#"{"t":"null","v":null}"#),
        (
            KvsValue::Array(vec![KvsValue::I32(1), KvsValue::Null]),
            r#"{"t":"arr","v":[{"t":"i32","v":1},{"t":"null","v":null}]}"#,
        ),
    ];
    for (value, text) in cases {
        let node = JsonNode::from_value(&value);
        let expected: tinyjson::JsonValue = text.parse().unwrap();
        assert_eq!(to_tiny(&node), expected, "for {}", text);
    }
}

#[test]
fn test_decode_of_encode_gives_the_value() {
    let mut inner = KvsMap::new();
    inner.insert("t".to_string(), KvsValue::String("kept".to_string()));
    inner.insert("v".to_string(), KvsValue::I32(7));
    inner.insert("x".to_string(), KvsValue::Array(vec![KvsValue::U64(u64::MAX / 2048 * 2048)]));
    let value = KvsValue::Array(vec![
        KvsValue::I32(i32::MIN),
        KvsValue::U32(u32::MAX),
        KvsValue::I64(-(1i64 << 53)),
        KvsValue::U64(1u64 << 53),
        KvsValue::F64(123.0f64.to_bits()),
        KvsValue::F64(f64::NAN.to_bits()),
        KvsValue::Boolean(false),
        KvsValue::String("s".to_string()),
        KvsValue::Null,
        KvsValue::Object(inner),
    ]);
    let back = KvsValue::from_node(&JsonNode::from_value(&value));
    assert_eq!(format!("{:?}", back), format!("{:?}", value));
}

#[test]
fn test_large_integers_lose_precision() {
    let value = KvsValue::I64(i64::MAX);
    let back = KvsValue::from_node(&JsonNode::from_value(&value));
    assert!(matches!(back, KvsValue::I64(i64::MAX)));
    let odd = KvsValue::U64((1u64 << 53) + 1);
    let back = KvsValue::from_node(&JsonNode::from_value(&odd));
    assert!(matches!(back, KvsValue::U64(9007199254740992)));
}

#[test]
fn test_tolerant_reader() {
    let null_cases = vec![
        r#"{"t":"i128","v":1}"#,
        r#"{"t":"i32","v":"1"}"#,
        r#"{"t":"bool","v":1}"#,
        r#"{"t":"str","v":null}"#,
        r#"{"t":"arr","v":{}}"#,
        r#"{"t":"obj","v":[]}"#,
        r#"{"t":"null","v":1}"#,
        r#"{"t":"i32"}"#,
        r#"{"v":1}"#,
        r#"{"t":1,"v":2}"#,
        r#"{"t":{"t":"str","v":"i32"},"v":{"t":"i32","v":1}}"#,
        r#"{"a":{"t":"i32","v":1},"v":3}"#,
        r#"{"a":{"t":"i32","v":1},"t":"i32"}"#,
        r#"[1,2]"#,
        r#"1"#,
        r#""text""#,
        r#"null"#,
    ];
    for text in null_cases {
        let node = JsonNode::parse(text).unwrap();
        assert!(matches!(KvsValue::from_node(&node), KvsValue::Null), "for {}", text);
    }
}

#[test]
fn test_numbers_are_cut_to_the_tagged_type() {
    let cases: Vec<(&str, KvsValue)> = vec![
        (r#"{"t":"i32","v":1.9}"#, KvsValue::I32(1)),
        (r#"{"t":"i32","v":-1.9}"#, KvsValue::I32(-1)),
        (r#"{"t":"i32","v":1e10}"#, KvsValue::I32(i32::MAX)),
        (r#"{"t":"i32","v":-1e10}"#, KvsValue::I32(i32::MIN)),
        (r#"{"t":"u32","v":-5}"#, KvsValue::U32(0)),
        (r#"{"t":"u32","v":1e10}"#, KvsValue::U32(u32::MAX)),
        (r#"{"t":"i64","v":1e30}"#, KvsValue::I64(i64::MAX)),
        (r#"{"t":"i64","v":-1e30}"#, KvsValue::I64(i64::MIN)),
        (r#"{"t":"u64","v":1e30}"#, KvsValue::U64(u64::MAX)),
        (r#"{"t":"u64","v":-1}"#, KvsValue::U64(0)),
        (r#"{"t":"u64","v":42}"#, KvsValue::U64(42)),
        (r#"{"t":"f64","v":0.25}"#, KvsValue::F64(0.25f64.to_bits())),
    ];
    for (text, expected) in cases {
        let node = JsonNode::parse(text).unwrap();
        let value = KvsValue::from_node(&node);
        assert_eq!(format!("{:?}", value), format!("{:?}", expected), "for {}", text);
    }
}

#[test]
fn test_plain_object_is_read_as_a_map() {
    let node = JsonNode::parse(r#"{"a":{"t":"i32","v":1},"b":{"c":{"t":"i32","v":2}},"w":3}"#)
        .unwrap();
    match KvsValue::from_node(&node) {
        KvsValue::Object(map) => {
            assert_eq!(map.len(), 3);
            assert_eq!(as_i32(map.get("a")), 1);
            assert!(matches!(map.get("w"), Some(KvsValue::Null)));
            match map.get("b") {
                Some(KvsValue::Object(inner)) => assert_eq!(as_i32(inner.get("c")), 2),
                other => panic!("not an object: {:?}", other),
            }
        },
        other => panic!("not an object: {:?}", other),
    }
}

#[test]
fn test_parse_rejects_what_is_no_json() {
    assert!(JsonNode::parse("{").is_err_and(|e| e == ErrorCode::JsonParserError));
    assert!(JsonBackend::parse("").is_err_and(|e| e == ErrorCode::JsonParserError));
    assert!(JsonBackend::parse("{} x").is_err_and(|e| e == ErrorCode::JsonParserError));
    assert!(matches!(JsonNode::parse("[true]"), Ok(JsonNode::Array(_))));
    match JsonNode::parse("2.5").unwrap() {
        JsonNode::Number(bits) => assert_eq!(bits, 2.5f64.to_bits()),
        other => panic!("not a number: {:?}", other),
    }
}

#[test]
fn test_load_gives_the_map() {
    let text = r#"{"number":{"t":"i32","v":42},"name":{"t":"str","v":"x"}}"#;
    let map = JsonBackend::load("kvs_0_0.json", "kvs_0_0.hash", &sealed(text)).unwrap();
    assert_eq!(map.len(), 2);
    assert_eq!(as_i32(map.get("number")), 42);
    assert!(matches!(map.get("name"), Some(KvsValue::String(s)) if s == "x"));
    let tagged = r#"{"t":"obj","v":{"number":{"t":"i32","v":42}}}"#;
    let map = JsonBackend::load("kvs_0_0.json", "kvs_0_0.hash", &sealed(tagged)).unwrap();
    assert_eq!(as_i32(map.get("number")), 42);
}

#[test]
fn test_load_errors() {
    let text = r#"{"number":{"t":"i32","v":42}}"#;
    let good = sealed(text);
    let load = |kvs: &str, hash: &str, f: &SnapshotFiles| JsonBackend::load(kvs, hash, f);
    assert!(load("kvs.txt", "kvs.hash", &good).is_err_and(|e| e == ErrorCode::KvsFileReadError));
    assert!(load("kvs.json", "kvs.txt", &good).is_err_and(|e| e == ErrorCode::KvsHashFileReadError));
    assert!(load("kvs.txt", "kvs.txt", &good).is_err_and(|e| e == ErrorCode::KvsFileReadError));
    let none = files(None, Some(seal(text)));
    assert!(load("kvs.json", "kvs.hash", &none).is_err_and(|e| e == ErrorCode::FileNotFound));
    let no_digest = files(Some(text), None);
    assert!(load("kvs.json", "kvs.hash", &no_digest).is_err_and(|e| e == ErrorCode::FileNotFound));
    let broken = sealed("{\"number\":");
    assert!(load("kvs.json", "kvs.hash", &broken).is_err_and(|e| e == ErrorCode::JsonParserError));
    let broken_no_digest = files(Some("{"), None);
    assert!(load("kvs.json", "kvs.hash", &broken_no_digest)
        .is_err_and(|e| e == ErrorCode::JsonParserError));
    let zero = files(Some(text), Some(vec![0, 0, 0, 0]));
    assert!(load("kvs.json", "kvs.hash", &zero).is_err_and(|e| e == ErrorCode::ValidationFailed));
    let short = files(Some(text), Some(vec![0, 0, 0]));
    assert!(load("kvs.json", "kvs.hash", &short).is_err_and(|e| e == ErrorCode::ValidationFailed));
    let mut digest = seal(text);
    digest[3] ^= 1;
    let flipped = files(Some(text), Some(digest));
    assert!(load("kvs.json", "kvs.hash", &flipped).is_err_and(|e| e == ErrorCode::ValidationFailed));
    let changed = files(Some(r#"{"number":{"t":"i32","v":43}}"#), Some(seal(text)));
    assert!(load("kvs.json", "kvs.hash", &changed).is_err_and(|e| e == ErrorCode::ValidationFailed));
    let refused = files(Some(r#"["number":{"t":"i32","v":42}}"#), Some(seal(text)));
    assert!(load("kvs.json", "kvs.hash", &refused).is_err_and(|e| e == ErrorCode::ValidationFailed));
    let cut = files(Some(r#"{"number":{"t":"i32","v":42}"#), Some(seal(text)));
    assert!(load("kvs.json", "kvs.hash", &cut).is_err_and(|e| e == ErrorCode::ValidationFailed));
    let torn = sealed(r#"{"number":{"t":"i32","v":42},"t":"i32"}"#);
    assert!(load("kvs.json", "kvs.hash", &torn).is_err_and(|e| e == ErrorCode::JsonParserError));
    let array = sealed("[1]");
    assert!(load("kvs.json", "kvs.hash", &array).is_err_and(|e| e == ErrorCode::JsonParserError));
    let scalar = sealed(r#"{"t":"i32","v":1}"#);
    assert!(load("kvs.json", "kvs.hash", &scalar).is_err_and(|e| e == ErrorCode::JsonParserError));
}

#[test]
fn test_save_gives_the_document() {
    let mut map = KvsMap::new();
    map.insert("k".to_string(), KvsValue::String("v".to_string()));
    map.insert("n".to_string(), KvsValue::U32(3));
    let document = JsonBackend::save(&map, "kvs_1_0.json", "kvs_1_0.hash").unwrap();
    let expected: tinyjson::JsonValue =
        r#"{"k":{"t":"str","v":"v"},"n":{"t":"u32","v":3}}"#.parse().unwrap();
    assert_eq!(to_tiny(&document), expected);
    assert!(JsonBackend::save(&map, "kvs_1_0.jsn", "kvs_1_0.hash")
        .is_err_and(|e| e == ErrorCode::KvsFileReadError));
    assert!(JsonBackend::save(&map, "kvs_1_0.json", "kvs_1_0.json")
        .is_err_and(|e| e == ErrorCode::KvsHashFileReadError));
}

#[test]
fn test_json_object_insert_replaces() {
    let mut object = JsonObject::new();
    object.insert("a".to_string(), JsonNode::Null);
    object.insert("b".to_string(), JsonNode::Boolean(true));
    object.insert("a".to_string(), JsonNode::Boolean(false));
    assert_eq!(object.entries.len(), 2);
    assert_eq!(object.position("a"), Some(0));
    assert_eq!(object.position("c"), None);
    assert!(matches!(object.entries[0].1, JsonNode::Boolean(false)));
    let wrapped = wrap("bool", JsonNode::Boolean(true));
    let expected: tinyjson::JsonValue = r#"{"t":"bool","v":true}"#.parse().unwrap();
    assert_eq!(to_tiny(&wrapped), expected);
}
