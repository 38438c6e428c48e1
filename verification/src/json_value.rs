//! JSON documents and the type-tagged encoding of values in them.
//!
//! A stored value is wrapped into the object `{"t": tag, "v": payload}`. The tag names the
//! variant; the payload of an array is an array of wrapped values, that of an object an object
//! of wrapped values.
use vstd::prelude::*;
use vstd::std_specs::convert::FromSpecImpl;
use crate::error_code::ErrorCode;
use crate::binary64::{
    binary64_from_int, binary64_of_int, binary64_to_whole, binary64_whole, lemma_whole_of_int,
};
use crate::entries::{
    distinct_keys, has_key, lemma_distinct_push, lemma_pairs_at, lemma_pairs_dom,
    lemma_pairs_finite, lemma_pairs_push, lemma_pairs_take, lemma_pairs_update, lemma_take_ends,
    pairs_map,
};
use crate::kvs_value::{
    entries_model, items_model, lemma_array_model, lemma_object_model, KvsMap, KvsValue,
    ValueModel,
};

verus! {

/// Mathematical model of a JSON document. A number is held as its binary64 bit pattern.
pub ghost enum JsonModel {
    Number(u64),
    Boolean(bool),
    String(Seq<char>),
    Null,
    Array(Seq<JsonModel>),
    Object(Map<Seq<char>, JsonModel>),
}

/// A JSON object: string keys, each at most once, in no particular order.
#[derive(Debug)]
pub struct JsonObject {
    pub entries: Vec<(String, JsonNode)>,
}

/// A JSON document. A number is held as its binary64 bit pattern.
#[derive(Debug)]
pub enum JsonNode {
    Number(u64),
    Boolean(bool),
    String(String),
    Null,
    Array(Vec<JsonNode>),
    Object(JsonObject),
}

impl JsonNode {
    /// What the document is, objects taken as maps.
    pub open spec fn model(self) -> JsonModel
        decreases self,
    {
        match self {
            JsonNode::Number(bits) => JsonModel::Number(bits),
            JsonNode::Boolean(b) => JsonModel::Boolean(b),
            JsonNode::String(s) => JsonModel::String(s@),
            JsonNode::Null => JsonModel::Null,
            JsonNode::Array(items) => JsonModel::Array(
                Seq::new(
                    items@.len(),
                    |i: int|
                        if 0 <= i < items@.len() {
                            items@[i].model()
                        } else {
                            JsonModel::Null
                        },
                ),
            ),
            JsonNode::Object(object) => JsonModel::Object(pairs_map(object.pair_models())),
        }
    }

    /// Validity: in no object of the document does a key occur twice.
    pub open spec fn wf(self) -> bool
        decreases self,
    {
        match self {
            JsonNode::Array(items) => forall|i: int|
                0 <= i < items@.len() ==> (#[trigger] items@[i]).wf(),
            JsonNode::Object(object) => object.wf(),
            _ => true,
        }
    }
}

impl JsonObject {
    /// The key and the model of the value of each entry, in the order of the entries.
    pub open spec fn pair_models(self) -> Seq<(Seq<char>, JsonModel)>
        decreases self,
    {
        Seq::new(
            self.entries@.len(),
            |i: int|
                if 0 <= i < self.entries@.len() {
                    (self.entries@[i].0@, self.entries@[i].1.model())
                } else {
                    (Seq::empty(), JsonModel::Null)
                },
        )
    }

    /// Validity: no key occurs twice, here or in an object below.
    pub open spec fn wf(self) -> bool
        decreases self,
    {
        &&& distinct_keys(node_pairs(self.entries@))
        &&& forall|i: int| 0 <= i < self.entries@.len() ==> (#[trigger] self.entries@[i]).1.wf()
    }
}

impl View for JsonNode {
    type V = JsonModel;

    open spec fn view(&self) -> JsonModel {
        self.model()
    }
}

impl View for JsonObject {
    type V = Map<Seq<char>, JsonModel>;

    open spec fn view(&self) -> Map<Seq<char>, JsonModel> {
        pairs_map(node_pairs(self.entries@))
    }
}

/// The models of a sequence of documents, item by item.
pub open spec fn nodes_model(items: Seq<JsonNode>) -> Seq<JsonModel> {
    Seq::new(items.len(), |i: int| items[i]@)
}

/// The key-model pairs of a sequence of object entries, entry by entry.
pub open spec fn node_pairs(entries: Seq<(String, JsonNode)>) -> Seq<(Seq<char>, JsonModel)> {
    Seq::new(entries.len(), |i: int| (entries[i].0@, entries[i].1@))
}

/// The model of an array is the models of its items.
pub proof fn lemma_node_array(items: Vec<JsonNode>)
    ensures
        JsonNode::Array(items)@ == JsonModel::Array(nodes_model(items@)),
{
    reveal_with_fuel(JsonNode::model, 2);
    assert(JsonNode::Array(items).model()->Array_0 =~= nodes_model(items@));
}

/// The model of an object document is the model of its object.
pub proof fn lemma_node_object(object: JsonObject)
    ensures
        JsonNode::Object(object)@ == JsonModel::Object(object@),
{
    reveal_with_fuel(JsonNode::model, 2);
    reveal_with_fuel(JsonObject::pair_models, 2);
    assert(object.pair_models() =~= node_pairs(object.entries@));
}

/// The key under which a wrapped value holds its type tag.
pub open spec fn tag_key() -> Seq<char> {
    "t"@
}

/// The key under which a wrapped value holds its payload.
pub open spec fn payload_key() -> Seq<char> {
    "v"@
}

/// A wrapped value: the object `{"t": tag, "v": payload}`.
pub open spec fn wrapped(tag: Seq<char>, payload: JsonModel) -> JsonModel {
    JsonModel::Object(
        Map::empty().insert(tag_key(), JsonModel::String(tag)).insert(payload_key(), payload),
    )
}

/// A number brought into the range from `lo` to `hi`.
pub open spec fn clamp(n: int, lo: int, hi: int) -> int {
    if n < lo {
        lo
    } else if n > hi {
        hi
    } else {
        n
    }
}

/// The wrapped values of a map of values: the payload of an object, and the top level of a
/// snapshot.
pub open spec fn encode_map(m: Map<Seq<char>, ValueModel>) -> Map<Seq<char>, JsonModel>
    decreases m, 0nat,
{
    Map::new(
        |k: Seq<char>| m.dom().contains(k),
        |k: Seq<char>|
            if m.dom().finite() && m.dom().contains(k) {
                encode(m[k])
            } else {
                JsonModel::Null
            },
    )
}

/// The wrapped form of a value.
pub open spec fn encode(v: ValueModel) -> JsonModel
    decreases v, 1nat,
{
    match v {
        ValueModel::I32(n) => wrapped("i32"@, JsonModel::Number(binary64_of_int(n as int))),
        ValueModel::U32(n) => wrapped("u32"@, JsonModel::Number(binary64_of_int(n as int))),
        ValueModel::I64(n) => wrapped("i64"@, JsonModel::Number(binary64_of_int(n as int))),
        ValueModel::U64(n) => wrapped("u64"@, JsonModel::Number(binary64_of_int(n as int))),
        ValueModel::F64(bits) => wrapped("f64"@, JsonModel::Number(bits)),
        ValueModel::Boolean(b) => wrapped("bool"@, JsonModel::Boolean(b)),
        ValueModel::String(s) => wrapped("str"@, JsonModel::String(s)),
        ValueModel::Null => wrapped("null"@, JsonModel::Null),
        ValueModel::Array(items) => wrapped(
            "arr"@,
            JsonModel::Array(
                Seq::new(
                    items.len(),
                    |i: int|
                        if 0 <= i < items.len() {
                            encode(items[i])
                        } else {
                            JsonModel::Null
                        },
                ),
            ),
        ),
        ValueModel::Object(m) => wrapped("obj"@, JsonModel::Object(encode_map(m))),
    }
}

/// Each value of a JSON object decoded, under its key.
pub open spec fn decode_map(m: Map<Seq<char>, JsonModel>) -> Map<Seq<char>, ValueModel>
    decreases m, 0nat,
{
    Map::new(
        |k: Seq<char>| m.dom().contains(k),
        |k: Seq<char>|
            if m.dom().finite() && m.dom().contains(k) {
                decode(m[k])
            } else {
                ValueModel::Null
            },
    )
}

/// The value that a tag and a payload stand for; `Null` where the payload is not of the shape
/// that the tag asks for, or the tag is unknown. A number is cut to its integer part and
/// brought into the range of the integer type that the tag names.
pub open spec fn decode_wrapped(tag: Seq<char>, payload: JsonModel) -> ValueModel
    decreases payload, 2nat,
{
    match payload {
        JsonModel::Number(bits) => if tag == "i32"@ {
            ValueModel::I32(clamp(binary64_whole(bits), i32::MIN as int, i32::MAX as int) as i32)
        } else if tag == "u32"@ {
            ValueModel::U32(clamp(binary64_whole(bits), 0, u32::MAX as int) as u32)
        } else if tag == "i64"@ {
            ValueModel::I64(clamp(binary64_whole(bits), i64::MIN as int, i64::MAX as int) as i64)
        } else if tag == "u64"@ {
            ValueModel::U64(clamp(binary64_whole(bits), 0, u64::MAX as int) as u64)
        } else if tag == "f64"@ {
            ValueModel::F64(bits)
        } else {
            ValueModel::Null
        },
        JsonModel::Boolean(b) => if tag == "bool"@ {
            ValueModel::Boolean(b)
        } else {
            ValueModel::Null
        },
        JsonModel::String(s) => if tag == "str"@ {
            ValueModel::String(s)
        } else {
            ValueModel::Null
        },
        JsonModel::Null => ValueModel::Null,
        JsonModel::Array(items) => if tag == "arr"@ {
            ValueModel::Array(
                Seq::new(
                    items.len(),
                    |i: int|
                        if 0 <= i < items.len() {
                            decode(items[i])
                        } else {
                            ValueModel::Null
                        },
                ),
            )
        } else {
            ValueModel::Null
        },
        JsonModel::Object(m) => if tag == "obj"@ {
            ValueModel::Object(decode_map(m))
        } else {
            ValueModel::Null
        },
    }
}

/// Whether an object is a wrapped value: it has a string under `"t"` and something under `"v"`.
pub open spec fn is_wrapped(m: Map<Seq<char>, JsonModel>) -> bool {
    &&& m.dom().contains(tag_key())
    &&& m[tag_key()] is String
    &&& m.dom().contains(payload_key())
}

/// The value that a JSON document stands for. An object that has neither `"t"` nor `"v"` is
/// read as a plain map, each value decoded. An object that has a string under `"t"` and
/// something under `"v"` is a wrapped value and is unwrapped. Everything else is `Null`: an
/// object with only one of the two keys or with a `"t"` that is no string, and every document
/// that is no object.
pub open spec fn decode(j: JsonModel) -> ValueModel
    decreases j, 3nat,
{
    match j {
        JsonModel::Object(m) => if !m.dom().finite() {
            ValueModel::Null
        } else if !m.dom().contains(tag_key()) && !m.dom().contains(payload_key()) {
            ValueModel::Object(decode_map(m))
        } else if is_wrapped(m) {
            decode_wrapped(m[tag_key()]->String_0, m[payload_key()])
        } else {
            ValueModel::Null
        },
        _ => ValueModel::Null,
    }
}

/// Whether a text is the given literal.
pub fn text_is(text: &String, literal: &str) -> (r: bool)
    ensures
        r == (text@ == literal@),
{
    let owned = literal.to_owned();
    *text == owned
}

impl JsonObject {
    /// The empty object.
    pub fn new() -> (r: Self)
        ensures
            r.wf(),
            r@ == Map::<Seq<char>, JsonModel>::empty(),
    {
        let r = JsonObject { entries: Vec::new() };
        assert(node_pairs(r.entries@) =~= Seq::empty());
        r
    }

    /// Position of the entry with the given key, if there is one.
    pub fn position(&self, key: &str) -> (r: Option<usize>)
        ensures
            match r {
                Some(i) => i < self.entries@.len() && self.entries@[i as int].0@ == key@,
                None => !has_key(node_pairs(self.entries@), key@),
            },
    {
        let owned = key.to_owned();
        let mut i: usize = 0;
        while i < self.entries.len()
            invariant
                0 <= i <= self.entries.len(),
                owned@ == key@,
                forall|j: int| 0 <= j < i ==> self.entries@[j].0@ != key@,
            decreases self.entries.len() - i,
        {
            if self.entries[i].0 == owned {
                return Some(i);
            }
            i = i + 1;
        }
        proof {
            let s = node_pairs(self.entries@);
            if has_key(s, key@) {
                let j = choose|j: int| 0 <= j < s.len() && (#[trigger] s[j]).0 == key@;
                assert(self.entries@[j].0@ != key@);
            }
        }
        None
    }

    /// Stores the document under the key, replacing what was there.
    pub fn insert(&mut self, key: String, value: JsonNode)
        requires
            old(self).wf(),
            value.wf(),
        ensures
            final(self).wf(),
            final(self)@ == old(self)@.insert(key@, value@),
    {
        let ghost before = node_pairs(self.entries@);
        let ghost old_entries = self.entries@;
        match self.position(key.as_str()) {
            Some(i) => {
                self.entries.set(i, (key, value));
                proof {
                    lemma_pairs_update(before, i as int, value@);
                    assert(node_pairs(self.entries@) =~= before.update(
                        i as int,
                        (before[i as int].0, value@),
                    ));
                    assert forall|j: int| 0 <= j < self.entries@.len() implies (
                    #[trigger] self.entries@[j]).1.wf() by {
                        if j != i {
                            assert(self.entries@[j] == old_entries[j]);
                        }
                    }
                }
            },
            None => {
                self.entries.push((key, value));
                proof {
                    lemma_pairs_push(before, key@, value@);
                    lemma_distinct_push(before, key@, value@);
                    assert(node_pairs(self.entries@) =~= before.push((key@, value@)));
                    assert forall|j: int| 0 <= j < self.entries@.len() implies (
                    #[trigger] self.entries@[j]).1.wf() by {
                        if j < old_entries.len() {
                            assert(self.entries@[j] == old_entries[j]);
                        }
                    }
                }
            },
        }
    }

    /// The wrapped values of a map: each value encoded, under its key.
    #[verifier::loop_isolation(false)]
    pub fn from_map(map: &KvsMap) -> (r: JsonObject)
        ensures
            r.wf(),
            r@ == encode_map(map@),
        decreases map,
    {
        let ghost pairs = entries_model(map.entries@);
        let mut out = JsonObject::new();
        let mut i: usize = 0;
        proof {
            lemma_take_ends(pairs);
            assert(out@ =~= encode_map(pairs_map(pairs.take(0))));
        }
        while i < map.entries.len()
            invariant
                0 <= i <= map.entries.len(),
                out.wf(),
                out@ == encode_map(pairs_map(pairs.take(i as int))),
            decreases map.entries.len() - i,
        {
            let key = map.entries[i].0.clone();
            let value = JsonNode::from_value(&map.entries[i].1);
            proof {
                lemma_pairs_take(pairs, i as int);
                lemma_pairs_finite(pairs.take(i as int));
                lemma_pairs_finite(pairs.take(i as int + 1));
                assert(out@.insert(key@, value@) =~= encode_map(
                    pairs_map(pairs.take(i as int + 1)),
                ));
            }
            out.insert(key, value);
            i = i + 1;
        }
        proof {
            lemma_take_ends(pairs);
        }
        out
    }
}

/// The wrapped value `{"t": tag, "v": payload}`.
pub fn wrap(tag: &str, payload: JsonNode) -> (r: JsonNode)
    requires
        payload.wf(),
    ensures
        r.wf(),
        r@ == wrapped(tag@, payload@),
{
    let mut object = JsonObject::new();
    let label = JsonNode::String(tag.to_owned());
    object.insert("t".to_owned(), label);
    object.insert("v".to_owned(), payload);
    proof {
        lemma_node_object(object);
    }
    JsonNode::Object(object)
}

impl JsonNode {
    /// The wrapped form of a value.
    #[verifier::loop_isolation(false)]
    pub fn from_value(value: &KvsValue) -> (r: JsonNode)
        ensures
            r.wf(),
            r@ == encode(value@),
        decreases value,
    {
        match value {
            KvsValue::I32(n) => wrap("i32", JsonNode::Number(binary64_from_int(*n as i128))),
            KvsValue::U32(n) => wrap("u32", JsonNode::Number(binary64_from_int(*n as i128))),
            KvsValue::I64(n) => wrap("i64", JsonNode::Number(binary64_from_int(*n as i128))),
            KvsValue::U64(n) => wrap("u64", JsonNode::Number(binary64_from_int(*n as i128))),
            KvsValue::F64(bits) => wrap("f64", JsonNode::Number(*bits)),
            KvsValue::Boolean(b) => wrap("bool", JsonNode::Boolean(*b)),
            KvsValue::String(s) => wrap("str", JsonNode::String(s.clone())),
            KvsValue::Null => wrap("null", JsonNode::Null),
            KvsValue::Array(items) => {
                let mut out: Vec<JsonNode> = Vec::new();
                let mut i: usize = 0;
                while i < items.len()
                    invariant
                        0 <= i <= items.len(),
                        out.len() == i,
                        forall|j: int| 0 <= j < i ==> (#[trigger] out@[j]).wf(),
                        forall|j: int| 0 <= j < i ==> out@[j]@ == encode(items@[j]@),
                    decreases items.len() - i,
                {
                    let item = JsonNode::from_value(&items[i]);
                    out.push(item);
                    i = i + 1;
                }
                proof {
                    lemma_array_model(*items);
                    lemma_node_array(out);
                    reveal_with_fuel(encode, 2);
                    assert(encode(value@)->Object_0[payload_key()]->Array_0 =~= nodes_model(out@));
                }
                wrap("arr", JsonNode::Array(out))
            },
            KvsValue::Object(map) => {
                let object = JsonObject::from_map(map);
                proof {
                    lemma_object_model(*map);
                    lemma_node_object(object);
                }
                wrap("obj", JsonNode::Object(object))
            },
        }
    }
}

/// A whole number brought into the range from `lo` to `hi`.
fn clamp_whole(whole: i128, lo: i128, hi: i128) -> (r: i128)
    requires
        lo <= hi,
    ensures
        r == clamp(whole as int, lo as int, hi as int),
{
    if whole < lo {
        lo
    } else if whole > hi {
        hi
    } else {
        whole
    }
}

impl KvsMap {
    /// Each value of a JSON object decoded, under its key.
    #[verifier::loop_isolation(false)]
    pub fn from_object(object: &JsonObject) -> (r: KvsMap)
        requires
            object.wf(),
        ensures
            r.wf(),
            r@ == decode_map(object@),
        decreases object,
    {
        let ghost pairs = node_pairs(object.entries@);
        let mut out = KvsMap::new();
        let mut i: usize = 0;
        proof {
            lemma_take_ends(pairs);
            assert(out@ =~= decode_map(pairs_map(pairs.take(0))));
        }
        while i < object.entries.len()
            invariant
                0 <= i <= object.entries.len(),
                out.wf(),
                out@ == decode_map(pairs_map(pairs.take(i as int))),
            decreases object.entries.len() - i,
        {
            let key = object.entries[i].0.clone();
            let value = KvsValue::from_node(&object.entries[i].1);
            proof {
                lemma_pairs_take(pairs, i as int);
                lemma_pairs_finite(pairs.take(i as int));
                lemma_pairs_finite(pairs.take(i as int + 1));
                assert(out@.insert(key@, value@) =~= decode_map(
                    pairs_map(pairs.take(i as int + 1)),
                ));
            }
            out.insert(key, value);
            i = i + 1;
        }
        proof {
            lemma_take_ends(pairs);
        }
        out
    }
}

impl KvsValue {
    /// The value that a tag and a payload stand for.
    #[verifier::loop_isolation(false)]
    pub fn from_wrapped(tag: &String, payload: &JsonNode) -> (r: KvsValue)
        requires
            payload.wf(),
        ensures
            r@ == decode_wrapped(tag@, payload@),
            r matches KvsValue::Object(map) ==> map.wf(),
        decreases payload,
    {
        match payload {
            JsonNode::Number(bits) => {
                let whole = binary64_to_whole(*bits);
                if text_is(tag, "i32") {
                    KvsValue::I32(clamp_whole(whole, i32::MIN as i128, i32::MAX as i128) as i32)
                } else if text_is(tag, "u32") {
                    KvsValue::U32(clamp_whole(whole, 0, u32::MAX as i128) as u32)
                } else if text_is(tag, "i64") {
                    KvsValue::I64(clamp_whole(whole, i64::MIN as i128, i64::MAX as i128) as i64)
                } else if text_is(tag, "u64") {
                    KvsValue::U64(clamp_whole(whole, 0, u64::MAX as i128) as u64)
                } else if text_is(tag, "f64") {
                    KvsValue::F64(*bits)
                } else {
                    KvsValue::Null
                }
            },
            JsonNode::Boolean(b) => if text_is(tag, "bool") {
                KvsValue::Boolean(*b)
            } else {
                KvsValue::Null
            },
            JsonNode::String(s) => if text_is(tag, "str") {
                KvsValue::String(s.clone())
            } else {
                KvsValue::Null
            },
            JsonNode::Null => KvsValue::Null,
            JsonNode::Array(items) => if text_is(tag, "arr") {
                let mut out: Vec<KvsValue> = Vec::new();
                let mut i: usize = 0;
                while i < items.len()
                    invariant
                        0 <= i <= items.len(),
                        out.len() == i,
                        forall|j: int| 0 <= j < i ==> out@[j]@ == decode(items@[j]@),
                    decreases items.len() - i,
                {
                    let item = KvsValue::from_node(&items[i]);
                    out.push(item);
                    i = i + 1;
                }
                proof {
                    lemma_array_model(out);
                    lemma_node_array(*items);
                    reveal_with_fuel(decode_wrapped, 2);
                    assert(decode_wrapped(tag@, payload@)->Array_0 =~= items_model(out@));
                }
                KvsValue::Array(out)
            } else {
                KvsValue::Null
            },
            JsonNode::Object(object) => if text_is(tag, "obj") {
                let map = KvsMap::from_object(object);
                proof {
                    lemma_object_model(map);
                    lemma_node_object(*object);
                }
                KvsValue::Object(map)
            } else {
                KvsValue::Null
            },
        }
    }

    /// The value that a JSON document stands for.
    pub fn from_node(node: &JsonNode) -> (r: KvsValue)
        requires
            node.wf(),
        ensures
            r@ == decode(node@),
            r matches KvsValue::Object(map) ==> map.wf(),
        decreases node,
    {
        match node {
            JsonNode::Object(object) => {
                let ghost pairs = node_pairs(object.entries@);
                proof {
                    reveal_with_fuel(JsonNode::wf, 2);
                    reveal_with_fuel(JsonObject::wf, 2);
                    lemma_node_object(*object);
                    lemma_pairs_finite(pairs);
                    lemma_pairs_dom(pairs, tag_key());
                    lemma_pairs_dom(pairs, payload_key());
                }
                let tag_at = object.position("t");
                let payload_at = object.position("v");
                match (tag_at, payload_at) {
                    (None, None) => {
                        let map = KvsMap::from_object(object);
                        proof {
                            lemma_object_model(map);
                        }
                        KvsValue::Object(map)
                    },
                    (Some(ti), Some(vi)) => {
                        proof {
                            assert(pairs[ti as int].0 == tag_key());
                            assert(pairs[vi as int].0 == payload_key());
                            lemma_pairs_at(pairs, ti as int);
                            lemma_pairs_at(pairs, vi as int);
                        }
                        match &object.entries[ti].1 {
                            JsonNode::String(tag) => KvsValue::from_wrapped(
                                tag,
                                &object.entries[vi].1,
                            ),
                            _ => KvsValue::Null,
                        }
                    },
                    (Some(ti), None) => {
                        assert(pairs[ti as int].0 == tag_key());
                        KvsValue::Null
                    },
                    (None, Some(vi)) => {
                        assert(pairs[vi as int].0 == payload_key());
                        KvsValue::Null
                    },
                }
            },
            _ => KvsValue::Null,
        }
    }
}

/// `tinyjson::JsonValue`, carried as an opaque value from the parser to `node_of`.
#[verifier::external_type_specification]
#[verifier::external_body]
pub struct ExJsonValue(tinyjson::JsonValue);

/// `tinyjson::JsonParseError`, carried as an opaque value.
#[verifier::external_type_specification]
#[verifier::external_body]
pub struct ExJsonParseError(tinyjson::JsonParseError);

/// The document that the JSON parser reads from a text, if it accepts the text.
pub uninterp spec fn json_parse_of(text: Seq<char>) -> Option<JsonModel>;

/// The document that a parsed JSON value holds.
pub uninterp spec fn parsed_model(value: tinyjson::JsonValue) -> JsonModel;

/// `tinyjson`'s `FromStr` for `JsonValue`: the parser reads one JSON value from the whole text.
/// Whether it accepts the text, and what it reads, depends on the text alone; the contract names
/// both and says no more of them.
#[verifier::external_body]
pub(crate) fn parse_text(text: &str) -> (r: Result<tinyjson::JsonValue, tinyjson::JsonParseError>)
    ensures
        r is Ok <==> json_parse_of(text@) is Some,
        r is Ok ==> parsed_model(r->Ok_0) == json_parse_of(text@)->Some_0,
{
    text.parse::<tinyjson::JsonValue>()
}

/// Takes a `tinyjson::JsonValue` apart, variant by variant, into a document of this library: a
/// number by its bits, the entries of an object in the order in which its hash map hands them
/// out. The keys of a hash map are distinct, so the document is valid.
#[verifier::external_body]
pub(crate) fn node_of(value: tinyjson::JsonValue) -> (r: JsonNode)
    ensures
        r@ == parsed_model(value),
        r.wf(),
{
    match value {
        tinyjson::JsonValue::Number(n) => JsonNode::Number(n.to_bits()),
        tinyjson::JsonValue::Boolean(b) => JsonNode::Boolean(b),
        tinyjson::JsonValue::String(s) => JsonNode::String(s),
        tinyjson::JsonValue::Null => JsonNode::Null,
        tinyjson::JsonValue::Array(items) => JsonNode::Array(
            items.into_iter().map(node_of).collect(),
        ),
        tinyjson::JsonValue::Object(map) => JsonNode::Object(
            JsonObject { entries: map.into_iter().map(|(k, v)| (k, node_of(v))).collect() },
        ),
    }
}

impl From<tinyjson::JsonParseError> for ErrorCode {
    /// A text that the JSON parser refuses is a JSON parser error.
    fn from(cause: tinyjson::JsonParseError) -> (r: Self) {
        ErrorCode::JsonParserError
    }
}

impl FromSpecImpl<tinyjson::JsonParseError> for ErrorCode {
    open spec fn obeys_from_spec() -> bool {
        true
    }

    open spec fn from_spec(cause: tinyjson::JsonParseError) -> Self {
        ErrorCode::JsonParserError
    }
}

impl JsonNode {
    /// Reads a JSON text.
    pub fn parse(text: &str) -> (r: Result<JsonNode, ErrorCode>)
        ensures
            match json_parse_of(text@) {
                Some(document) => r is Ok && r->Ok_0@ == document && r->Ok_0.wf(),
                None => r == Err::<JsonNode, ErrorCode>(ErrorCode::JsonParserError),
            },
    {
        match parse_text(text) {
            Ok(value) => Ok(node_of(value)),
            Err(cause) => Err(ErrorCode::from(cause)),
        }
    }
}

/// Whether a value comes back from its wrapped form: every integer in it is what its float
/// stands for, and every map in it is finite.
pub open spec fn exact(v: ValueModel) -> bool
    decreases v,
{
    match v {
        ValueModel::I32(n) => binary64_whole(binary64_of_int(n as int)) == n,
        ValueModel::U32(n) => binary64_whole(binary64_of_int(n as int)) == n,
        ValueModel::I64(n) => binary64_whole(binary64_of_int(n as int)) == n,
        ValueModel::U64(n) => binary64_whole(binary64_of_int(n as int)) == n,
        ValueModel::Array(items) => forall|i: int| 0 <= i < items.len() ==> exact(#[trigger] items[i]),
        ValueModel::Object(m) => m.dom().finite() && forall|k: Seq<char>|
            m.dom().finite() && m.dom().contains(k) ==> exact(#[trigger] m[k]),
        _ => true,
    }
}

/// The tags and the two keys are distinct texts.
proof fn lemma_tags_distinct()
    ensures
        tag_key() != payload_key(),
        "i32"@ != "u32"@,
        "i32"@ != "i64"@,
        "i32"@ != "u64"@,
        "i32"@ != "f64"@,
        "u32"@ != "i64"@,
        "u32"@ != "u64"@,
        "u32"@ != "f64"@,
        "i64"@ != "u64"@,
        "i64"@ != "f64"@,
        "u64"@ != "f64"@,
{
    reveal_strlit("t");
    reveal_strlit("v");
    reveal_strlit("i32");
    reveal_strlit("u32");
    reveal_strlit("i64");
    reveal_strlit("u64");
    reveal_strlit("f64");
    assert("t"@[0] != "v"@[0]);
    assert("i32"@[0] != "u32"@[0]);
    assert("i32"@[1] != "i64"@[1]);
    assert("i32"@[0] != "u64"@[0]);
    assert("i32"@[0] != "f64"@[0]);
    assert("u32"@[0] != "i64"@[0]);
    assert("u32"@[1] != "u64"@[1]);
    assert("u32"@[0] != "f64"@[0]);
    assert("i64"@[0] != "u64"@[0]);
    assert("i64"@[0] != "f64"@[0]);
    assert("u64"@[0] != "f64"@[0]);
}

/// A wrapped value is unwrapped by its tag and payload.
proof fn lemma_decode_of_wrapped(tag: Seq<char>, payload: JsonModel)
    ensures
        decode(wrapped(tag, payload)) == decode_wrapped(tag, payload),
{
    lemma_tags_distinct();
    let m = Map::<Seq<char>, JsonModel>::empty().insert(tag_key(), JsonModel::String(tag)).insert(
        payload_key(),
        payload,
    );
    assert(m.dom() =~= Set::<Seq<char>>::empty().insert(tag_key()).insert(payload_key()));
    assert(m.dom().finite());
    assert(is_wrapped(m));
}

/// Round trip of the encoding: decoding the wrapped form of an exact value gives the value.
pub proof fn lemma_decode_encode(v: ValueModel)
    requires
        exact(v),
    ensures
        decode(encode(v)) == v,
    decreases v,
{
    lemma_tags_distinct();
    reveal_with_fuel(encode, 2);
    reveal_with_fuel(decode_wrapped, 2);
    match v {
        ValueModel::I32(n) => {
            lemma_decode_of_wrapped("i32"@, JsonModel::Number(binary64_of_int(n as int)));
        },
        ValueModel::U32(n) => {
            lemma_decode_of_wrapped("u32"@, JsonModel::Number(binary64_of_int(n as int)));
        },
        ValueModel::I64(n) => {
            lemma_decode_of_wrapped("i64"@, JsonModel::Number(binary64_of_int(n as int)));
        },
        ValueModel::U64(n) => {
            lemma_decode_of_wrapped("u64"@, JsonModel::Number(binary64_of_int(n as int)));
        },
        ValueModel::F64(bits) => {
            lemma_decode_of_wrapped("f64"@, JsonModel::Number(bits));
        },
        ValueModel::Boolean(b) => {
            lemma_decode_of_wrapped("bool"@, JsonModel::Boolean(b));
        },
        ValueModel::String(s) => {
            lemma_decode_of_wrapped("str"@, JsonModel::String(s));
        },
        ValueModel::Null => {
            lemma_decode_of_wrapped("null"@, JsonModel::Null);
        },
        ValueModel::Array(items) => {
            let encoded = Seq::new(
                items.len(),
                |i: int|
                    if 0 <= i < items.len() {
                        encode(items[i])
                    } else {
                        JsonModel::Null
                    },
            );
            lemma_decode_of_wrapped("arr"@, JsonModel::Array(encoded));
            assert(encode(v)->Object_0[payload_key()]->Array_0 =~= encoded);
            assert(encode(v) == wrapped("arr"@, JsonModel::Array(encoded)));
            assert forall|i: int| 0 <= i < items.len() implies decode(encoded[i]) == items[i] by {
                lemma_decode_encode(items[i]);
            }
            assert(decode_wrapped("arr"@, JsonModel::Array(encoded))->Array_0 =~= items);
        },
        ValueModel::Object(m) => {
            lemma_decode_of_wrapped("obj"@, JsonModel::Object(encode_map(m)));
            lemma_decode_encode_map(m);
        },
    }
}

/// Round trip of the encoding on the values of a map.
pub proof fn lemma_decode_encode_map(m: Map<Seq<char>, ValueModel>)
    requires
        m.dom().finite(),
        forall|k: Seq<char>| m.dom().contains(k) ==> exact(#[trigger] m[k]),
    ensures
        decode_map(encode_map(m)) == m,
        encode_map(m).dom() == m.dom(),
    decreases m,
{
    let encoded = encode_map(m);
    assert(encoded.dom() =~= m.dom());
    assert forall|k: Seq<char>| m.dom().contains(k) implies decode(encoded[k]) == m[k] by {
        lemma_decode_encode(m[k]);
    }
    assert(decode_map(encoded) =~= m);
}

/// Round trip of a snapshot document: the object that holds each value of a map wrapped stands
/// for the map, provided the map holds nothing under `"t"` and `"v"` and its values are exact.
pub proof fn lemma_snapshot_round_trip(m: Map<Seq<char>, ValueModel>)
    requires
        m.dom().finite(),
        forall|k: Seq<char>| m.dom().contains(k) ==> exact(#[trigger] m[k]),
        !m.dom().contains(tag_key()),
        !m.dom().contains(payload_key()),
    ensures
        decode(JsonModel::Object(encode_map(m))) == ValueModel::Object(m),
{
    lemma_decode_encode_map(m);
    assert(encode_map(m).dom() =~= m.dom());
}

/// Whether every 64-bit integer in a value has a magnitude of at most 2^53, and every map in
/// it is finite.
pub open spec fn is_small(v: ValueModel) -> bool
    decreases v,
{
    match v {
        ValueModel::I64(n) => -0x20_0000_0000_0000 <= n <= 0x20_0000_0000_0000,
        ValueModel::U64(n) => n <= 0x20_0000_0000_0000,
        ValueModel::Array(items) => forall|i: int|
            0 <= i < items.len() ==> is_small(#[trigger] items[i]),
        ValueModel::Object(m) => m.dom().finite() && forall|k: Seq<char>|
            m.dom().finite() && m.dom().contains(k) ==> is_small(#[trigger] m[k]),
        _ => true,
    }
}

/// A value without large 64-bit integers is exact: 32-bit integers, and 64-bit integers of a
/// magnitude up to 2^53, are the integer parts of their floats.
pub proof fn lemma_small_is_exact(v: ValueModel)
    requires
        is_small(v),
    ensures
        exact(v),
    decreases v,
{
    match v {
        ValueModel::I32(n) => {
            lemma_whole_of_int(n as int);
        },
        ValueModel::U32(n) => {
            lemma_whole_of_int(n as int);
        },
        ValueModel::I64(n) => {
            lemma_whole_of_int(n as int);
        },
        ValueModel::U64(n) => {
            lemma_whole_of_int(n as int);
        },
        ValueModel::Array(items) => {
            assert forall|i: int| 0 <= i < items.len() implies exact(#[trigger] items[i]) by {
                lemma_small_is_exact(items[i]);
            }
        },
        ValueModel::Object(m) => {
            assert forall|k: Seq<char>| m.dom().finite() && m.dom().contains(k) implies exact(
                #[trigger] m[k],
            ) by {
                lemma_small_is_exact(m[k]);
            }
        },
        _ => {},
    }
}

} // verus!
