//! The typed value model and the string-keyed map that holds it.
use vstd::prelude::*;
use vstd::string::*;
use crate::binary64::{binary64_eq, binary64_equal};
use crate::entries::{
    distinct_keys, has_key, lemma_distinct_push, lemma_pairs_at, lemma_pairs_dom, lemma_pairs_last,
    lemma_pairs_finite, lemma_pairs_len, lemma_pairs_push, lemma_pairs_remove, lemma_pairs_update,
    pairs_map,
};

verus! {

/// Mathematical model of a stored value.
///
/// A 64-bit float is held as its IEEE 754 binary64 bit pattern.
pub ghost enum ValueModel {
    I32(i32),
    U32(u32),
    I64(i64),
    U64(u64),
    F64(u64),
    Boolean(bool),
    String(Seq<char>),
    Null,
    Array(Seq<ValueModel>),
    Object(Map<Seq<char>, ValueModel>),
}

/// Key-value storage map: string keys, each at most once, in no particular order.
#[derive(Debug)]
pub struct KvsMap {
    pub entries: Vec<(String, KvsValue)>,
}

/// Key-value storage value.
///
/// `F64` holds the IEEE 754 binary64 bit pattern of the float.
#[derive(Debug)]
pub enum KvsValue {
    /// 32-bit signed integer
    I32(i32),
    /// 32-bit unsigned integer
    U32(u32),
    /// 64-bit signed integer
    I64(i64),
    /// 64-bit unsigned integer
    U64(u64),
    /// 64-bit float, as its bit pattern
    F64(u64),
    /// Boolean
    Boolean(bool),
    /// String
    String(String),
    /// Null
    Null,
    /// Array
    Array(Vec<KvsValue>),
    /// Object
    Object(KvsMap),
}

/// The models of a sequence of values, item by item.
pub open spec fn items_model(items: Seq<KvsValue>) -> Seq<ValueModel> {
    Seq::new(items.len(), |i: int| items[i]@)
}

/// The key-model pairs of a sequence of entries, entry by entry.
pub open spec fn entries_model(entries: Seq<(String, KvsValue)>) -> Seq<(Seq<char>, ValueModel)> {
    Seq::new(entries.len(), |i: int| (entries[i].0@, entries[i].1@))
}

impl View for KvsValue {
    type V = ValueModel;

    open spec fn view(&self) -> ValueModel {
        self.model()
    }
}

impl KvsValue {
    /// What the value is: its variant and payload, containers taken by their contents.
    pub open spec fn model(self) -> ValueModel
        decreases self,
    {
        match self {
            KvsValue::I32(n) => ValueModel::I32(n),
            KvsValue::U32(n) => ValueModel::U32(n),
            KvsValue::I64(n) => ValueModel::I64(n),
            KvsValue::U64(n) => ValueModel::U64(n),
            KvsValue::F64(n) => ValueModel::F64(n),
            KvsValue::Boolean(b) => ValueModel::Boolean(b),
            KvsValue::String(s) => ValueModel::String(s@),
            KvsValue::Null => ValueModel::Null,
            KvsValue::Array(items) => ValueModel::Array(
                Seq::new(
                    items@.len(),
                    |i: int|
                        if 0 <= i < items@.len() {
                            items@[i].model()
                        } else {
                            ValueModel::Null
                        },
                ),
            ),
            KvsValue::Object(map) => ValueModel::Object(pairs_map(map.pair_models())),
        }
    }
}

impl KvsMap {
    /// The key and the model of the value of each entry, in the order of the entries.
    pub open spec fn pair_models(self) -> Seq<(Seq<char>, ValueModel)>
        decreases self,
    {
        Seq::new(
            self.entries@.len(),
            |i: int|
                if 0 <= i < self.entries@.len() {
                    (self.entries@[i].0@, self.entries@[i].1.model())
                } else {
                    (Seq::empty(), ValueModel::Null)
                },
        )
    }
}

impl View for KvsMap {
    type V = Map<Seq<char>, ValueModel>;

    open spec fn view(&self) -> Map<Seq<char>, ValueModel> {
        pairs_map(entries_model(self.entries@))
    }
}

/// Whether two values are equal: the same variant with equal payloads. Floats are compared as
/// numbers, so a NaN equals nothing and the two zeros are equal; arrays are compared item by
/// item and objects as maps.
pub open spec fn value_eq(a: ValueModel, b: ValueModel) -> bool
    decreases a, 1nat,
{
    match a {
        ValueModel::F64(x) => b matches ValueModel::F64(y) && binary64_eq(x, y),
        ValueModel::Array(s) => b matches ValueModel::Array(t) && s.len() == t.len() && forall|
            i: int,
        |
            0 <= i < s.len() ==> value_eq(#[trigger] s[i], t[i]),
        ValueModel::Object(m) => b matches ValueModel::Object(n) && map_eq(m, n),
        _ => a == b,
    }
}

/// Whether two maps are equal: they have the same keys, finitely many, and equal values under
/// each.
pub open spec fn map_eq(m: Map<Seq<char>, ValueModel>, n: Map<Seq<char>, ValueModel>) -> bool
    decreases m, 0nat,
{
    &&& m.dom().finite()
    &&& m.dom() == n.dom()
    &&& forall|k: Seq<char>|
        m.dom().finite() && m.dom().contains(k) ==> value_eq(#[trigger] m[k], n[k])
}

/// Whether a list holds the keys of a map, each once.
pub open spec fn is_key_list(keys: Seq<String>, m: Map<Seq<char>, ValueModel>) -> bool {
    &&& forall|i: int| 0 <= i < keys.len() ==> m.dom().contains(#[trigger] keys[i]@)
    &&& forall|k: Seq<char>|
        m.dom().contains(k) ==> exists|i: int| 0 <= i < keys.len() && #[trigger] keys[i]@ == k
    &&& forall|i: int, j: int|
        0 <= i < j < keys.len() ==> #[trigger] keys[i]@ != #[trigger] keys[j]@
}

/// The model of an array is the models of its items.
pub proof fn lemma_array_model(items: Vec<KvsValue>)
    ensures
        KvsValue::Array(items)@ == ValueModel::Array(items_model(items@)),
{
    let a = Seq::new(
        items@.len(),
        |i: int|
            if 0 <= i < items@.len() {
                items@[i].model()
            } else {
                ValueModel::Null
            },
    );
    reveal_with_fuel(KvsValue::model, 2);
    assert(a =~= items_model(items@));
    assert(KvsValue::Array(items).model()->Array_0 =~= a);
}

/// The model of an object is the model of its map.
pub proof fn lemma_object_model(map: KvsMap)
    ensures
        KvsValue::Object(map)@ == ValueModel::Object(map@),
{
    reveal_with_fuel(KvsValue::model, 2);
    reveal_with_fuel(KvsMap::pair_models, 2);
    assert(map.pair_models() =~= entries_model(map.entries@));
}

impl Clone for KvsValue {
    /// Deep copy: the copy has the same model.
    fn clone(&self) -> (r: Self)
        ensures
            r@ == self@,
    {
        self.duplicate()
    }
}

impl KvsValue {
    /// Deep copy: the copy has the same model.
    #[verifier::loop_isolation(false)]
    pub fn duplicate(&self) -> (r: Self)
        ensures
            r@ == self@,
        decreases self,
    {
        match self {
            KvsValue::I32(n) => KvsValue::I32(*n),
            KvsValue::U32(n) => KvsValue::U32(*n),
            KvsValue::I64(n) => KvsValue::I64(*n),
            KvsValue::U64(n) => KvsValue::U64(*n),
            KvsValue::F64(n) => KvsValue::F64(*n),
            KvsValue::Boolean(b) => KvsValue::Boolean(*b),
            KvsValue::String(s) => KvsValue::String(s.clone()),
            KvsValue::Null => KvsValue::Null,
            KvsValue::Array(items) => {
                let mut copy: Vec<KvsValue> = Vec::new();
                let mut i: usize = 0;
                while i < items.len()
                    invariant
                        0 <= i <= items.len(),
                        copy.len() == i,
                        forall|j: int| 0 <= j < i ==> copy@[j]@ == items@[j]@,
                    decreases items.len() - i,
                {
                    let item = items[i].duplicate();
                    copy.push(item);
                    i = i + 1;
                }
                proof {
                    lemma_array_model(copy);
                    lemma_array_model(*items);
                    assert(items_model(copy@) =~= items_model(items@));
                }
                KvsValue::Array(copy)
            },
            KvsValue::Object(map) => {
                let mut copy: Vec<(String, KvsValue)> = Vec::new();
                let mut i: usize = 0;
                while i < map.entries.len()
                    invariant
                        0 <= i <= map.entries.len(),
                        copy.len() == i,
                        forall|j: int|
                            0 <= j < i ==> copy@[j].0@ == map.entries@[j].0@ && copy@[j].1@
                                == map.entries@[j].1@,
                    decreases map.entries.len() - i,
                {
                    let key = map.entries[i].0.clone();
                    let value = map.entries[i].1.duplicate();
                    copy.push((key, value));
                    i = i + 1;
                }
                let dup = KvsMap { entries: copy };
                proof {
                    lemma_object_model(dup);
                    lemma_object_model(*map);
                    assert(entries_model(dup.entries@) =~= entries_model(map.entries@));
                }
                KvsValue::Object(dup)
            },
        }
    }
}

impl Clone for KvsMap {
    /// Deep copy: the same entries in the same order.
    fn clone(&self) -> (r: Self)
        ensures
            r@ == self@,
            entries_model(r.entries@) == entries_model(self.entries@),
    {
        let mut copy: Vec<(String, KvsValue)> = Vec::new();
        let mut i: usize = 0;
        while i < self.entries.len()
            invariant
                0 <= i <= self.entries.len(),
                copy.len() == i,
                forall|j: int|
                    0 <= j < i ==> copy@[j].0@ == self.entries@[j].0@ && copy@[j].1@
                        == self.entries@[j].1@,
            decreases self.entries.len() - i,
        {
            let key = self.entries[i].0.clone();
            let value = self.entries[i].1.clone();
            copy.push((key, value));
            i = i + 1;
        }
        let dup = KvsMap { entries: copy };
        assert(entries_model(dup.entries@) =~= entries_model(self.entries@));
        dup
    }
}

impl KvsMap {
    /// Validity: no key occurs twice.
    pub open spec fn wf(self) -> bool {
        distinct_keys(entries_model(self.entries@))
    }

    /// The empty map.
    pub fn new() -> (r: Self)
        ensures
            r.wf(),
            r@ == Map::<Seq<char>, ValueModel>::empty(),
    {
        let r = KvsMap { entries: Vec::new() };
        assert(entries_model(r.entries@) =~= Seq::empty());
        r
    }

    /// Number of keys.
    pub fn len(&self) -> (r: usize)
        requires
            self.wf(),
        ensures
            r == self@.dom().len(),
            r == self.entries@.len(),
    {
        proof {
            lemma_pairs_len(entries_model(self.entries@));
        }
        self.entries.len()
    }

    /// Position of the entry with the given key, if there is one.
    pub fn position(&self, key: &str) -> (r: Option<usize>)
        ensures
            match r {
                Some(i) => i < self.entries@.len() && self.entries@[i as int].0@ == key@,
                None => !has_key(entries_model(self.entries@), key@),
            },
    {
        let owned = key.to_owned();
        let mut i: usize = 0;
        while i < self.entries.len()
            invariant
                0 <= i <= self.entries.len(),
                owned@ == key@,
                forall|j: int| 0 <= j < i ==> self.entries@[j].0@ != key@,
            decreases self.entries.len() - i,
        {
            if self.entries[i].0 == owned {
                return Some(i);
            }
            i = i + 1;
        }
        proof {
            let s = entries_model(self.entries@);
            if has_key(s, key@) {
                let j = choose|j: int| 0 <= j < s.len() && (#[trigger] s[j]).0 == key@;
                assert(self.entries@[j].0@ != key@);
            }
        }
        None
    }

    /// Whether the key is present.
    pub fn contains_key(&self, key: &str) -> (r: bool)
        ensures
            r == self@.dom().contains(key@),
    {
        proof {
            lemma_pairs_dom(entries_model(self.entries@), key@);
        }
        match self.position(key) {
            Some(i) => {
                assert(entries_model(self.entries@)[i as int].0 == key@);
                true
            },
            None => false,
        }
    }

    /// The value stored under the key.
    pub fn get(&self, key: &str) -> (r: Option<&KvsValue>)
        requires
            self.wf(),
        ensures
            r is Some <==> self@.dom().contains(key@),
            r is Some ==> r.unwrap()@ == self@[key@],
    {
        proof {
            lemma_pairs_dom(entries_model(self.entries@), key@);
        }
        match self.position(key) {
            Some(i) => {
                proof {
                    assert(entries_model(self.entries@)[i as int].0 == key@);
                    lemma_pairs_at(entries_model(self.entries@), i as int);
                }
                Some(&self.entries[i].1)
            },
            None => None,
        }
    }

    /// Stores the value under the key, replacing what was there.
    pub fn insert(&mut self, key: String, value: KvsValue)
        requires
            old(self).wf(),
        ensures
            final(self).wf(),
            final(self)@ == old(self)@.insert(key@, value@),
    {
        let ghost before = entries_model(self.entries@);
        match self.position(key.as_str()) {
            Some(i) => {
                self.entries.set(i, (key, value));
                proof {
                    lemma_pairs_update(before, i as int, value@);
                    assert(entries_model(self.entries@) =~= before.update(
                        i as int,
                        (before[i as int].0, value@),
                    ));
                }
            },
            None => {
                self.entries.push((key, value));
                proof {
                    lemma_pairs_push(before, key@, value@);
                    lemma_distinct_push(before, key@, value@);
                    assert(entries_model(self.entries@) =~= before.push((key@, value@)));
                }
            },
        }
    }

    /// Takes the key out and returns what was stored under it.
    pub fn remove(&mut self, key: &str) -> (r: Option<KvsValue>)
        requires
            old(self).wf(),
        ensures
            final(self).wf(),
            final(self)@ == old(self)@.remove(key@),
            r is Some <==> old(self)@.dom().contains(key@),
            r is Some ==> r.unwrap()@ == old(self)@[key@],
    {
        let ghost before = entries_model(self.entries@);
        proof {
            lemma_pairs_dom(before, key@);
        }
        match self.position(key) {
            Some(i) => {
                proof {
                    assert(before[i as int].0 == key@);
                    lemma_pairs_at(before, i as int);
                    lemma_pairs_remove(before, i as int);
                }
                let entry = self.entries.remove(i);
                assert(entries_model(self.entries@) =~= before.remove(i as int));
                Some(entry.1)
            },
            None => {
                assert(self@.remove(key@) =~= self@);
                None
            },
        }
    }

    /// The keys, each once, in no particular order.
    pub fn keys(&self) -> (r: Vec<String>)
        requires
            self.wf(),
        ensures
            r@.len() == self.entries@.len(),
            is_key_list(r@, self@),
    {
        let mut out: Vec<String> = Vec::new();
        let mut i: usize = 0;
        while i < self.entries.len()
            invariant
                0 <= i <= self.entries.len(),
                out@.len() == i,
                forall|j: int| 0 <= j < i ==> #[trigger] out@[j]@ == self.entries@[j].0@,
            decreases self.entries.len() - i,
        {
            out.push(self.entries[i].0.clone());
            i = i + 1;
        }
        proof {
            let s = entries_model(self.entries@);
            assert forall|j: int| 0 <= j < out@.len() implies self@.dom().contains(
                #[trigger] out@[j]@,
            ) by {
                lemma_pairs_dom(s, out@[j]@);
                assert(s[j].0 == out@[j]@);
            }
            assert forall|k: Seq<char>| self@.dom().contains(k) implies exists|j: int|
                0 <= j < out@.len() && #[trigger] out@[j]@ == k by {
                lemma_pairs_dom(s, k);
                let j = choose|j: int| 0 <= j < s.len() && (#[trigger] s[j]).0 == k;
                assert(out@[j]@ == k);
            }
            assert forall|a: int, b: int| 0 <= a < b < out@.len() implies #[trigger] out@[a]@
                != #[trigger] out@[b]@ by {
                assert(s[a].0 != s[b].0);
            }
        }
        out
    }
}

impl KvsMap {
    /// Position of the last entry with the given key, if there is one.
    #[verifier::loop_isolation(false)]
    pub fn last_position(&self, key: &String) -> (r: Option<usize>)
        ensures
            match r {
                Some(i) => {
                    &&& i < self.entries@.len()
                    &&& self.entries@[i as int].0@ == key@
                    &&& self@.dom().contains(key@)
                    &&& self@[key@] == self.entries@[i as int].1@
                },
                None => !self@.dom().contains(key@),
            },
    {
        let ghost pairs = entries_model(self.entries@);
        let mut i: usize = self.entries.len();
        while i > 0
            invariant
                i <= self.entries.len(),
                forall|j: int| i <= j < self.entries@.len() ==> self.entries@[j].0@ != key@,
            decreases i,
        {
            if self.entries[i - 1].0 == *key {
                proof {
                    assert forall|j: int| i - 1 < j < pairs.len() implies (#[trigger] pairs[j]).0
                        != pairs[i - 1].0 by {
                        assert(self.entries@[j].0@ != key@);
                    }
                    lemma_pairs_last(pairs, i - 1);
                }
                return Some(i - 1);
            }
            i = i - 1;
        }
        proof {
            lemma_pairs_dom(pairs, key@);
            if has_key(pairs, key@) {
                let j = choose|j: int| 0 <= j < pairs.len() && (#[trigger] pairs[j]).0 == key@;
                assert(self.entries@[j].0@ != key@);
            }
        }
        None
    }

    /// Whether two maps are equal: the same keys, with equal values under each.
    #[verifier::loop_isolation(false)]
    pub fn same_as(&self, other: &KvsMap) -> (r: bool)
        ensures
            r == map_eq(self@, other@),
        decreases self,
    {
        let ghost pairs = entries_model(self.entries@);
        let ghost other_pairs = entries_model(other.entries@);
        proof {
            lemma_pairs_finite(pairs);
        }
        let mut i: usize = 0;
        while i < self.entries.len()
            invariant
                0 <= i <= self.entries.len(),
                forall|j: int|
                    0 <= j < i ==> other@.dom().contains(#[trigger] self.entries@[j].0@)
                        && value_eq(self@[self.entries@[j].0@], other@[self.entries@[j].0@]),
            decreases self.entries.len() - i,
        {
            let here = self.last_position(&self.entries[i].0);
            let there = other.last_position(&self.entries[i].0);
            proof {
                lemma_pairs_dom(pairs, self.entries@[i as int].0@);
                assert(pairs[i as int].0 == self.entries@[i as int].0@);
            }
            match (here, there) {
                (Some(a), Some(b)) => {
                    if !self.entries[a].1.same_as(&other.entries[b].1) {
                        assert(!value_eq(
                            self@[self.entries@[i as int].0@],
                            other@[self.entries@[i as int].0@],
                        ));
                        return false;
                    }
                },
                _ => {
                    assert(!other@.dom().contains(self.entries@[i as int].0@));
                    return false;
                },
            }
            i = i + 1;
        }
        let mut k: usize = 0;
        while k < other.entries.len()
            invariant
                0 <= k <= other.entries.len(),
                forall|j: int| 0 <= j < k ==> self@.dom().contains(#[trigger] other.entries@[j].0@),
            decreases other.entries.len() - k,
        {
            match self.last_position(&other.entries[k].0) {
                Some(_) => {},
                None => {
                    proof {
                        lemma_pairs_dom(other_pairs, other.entries@[k as int].0@);
                        assert(other_pairs[k as int].0 == other.entries@[k as int].0@);
                    }
                    return false;
                },
            }
            k = k + 1;
        }
        proof {
            assert forall|key: Seq<char>| #[trigger]
                self@.dom().contains(key) implies other@.dom().contains(key) && value_eq(
                self@[key],
                other@[key],
            ) by {
                lemma_pairs_dom(pairs, key);
                let j = choose|j: int| 0 <= j < pairs.len() && (#[trigger] pairs[j]).0 == key;
                assert(self.entries@[j].0@ == key);
            }
            assert forall|key: Seq<char>| #[trigger]
                other@.dom().contains(key) implies self@.dom().contains(key) by {
                lemma_pairs_dom(other_pairs, key);
                let j = choose|j: int|
                    0 <= j < other_pairs.len() && (#[trigger] other_pairs[j]).0 == key;
                assert(other.entries@[j].0@ == key);
            }
            assert(self@.dom() =~= other@.dom());
        }
        true
    }
}

impl KvsValue {
    /// Whether two values are equal: the same variant with equal payloads, floats as numbers,
    /// arrays item by item, objects as maps.
    #[verifier::loop_isolation(false)]
    pub fn same_as(&self, other: &KvsValue) -> (r: bool)
        ensures
            r == value_eq(self@, other@),
        decreases self,
    {
        match (self, other) {
            (KvsValue::I32(a), KvsValue::I32(b)) => *a == *b,
            (KvsValue::U32(a), KvsValue::U32(b)) => *a == *b,
            (KvsValue::I64(a), KvsValue::I64(b)) => *a == *b,
            (KvsValue::U64(a), KvsValue::U64(b)) => *a == *b,
            (KvsValue::F64(a), KvsValue::F64(b)) => binary64_equal(*a, *b),
            (KvsValue::Boolean(a), KvsValue::Boolean(b)) => *a == *b,
            (KvsValue::String(a), KvsValue::String(b)) => *a == *b,
            (KvsValue::Null, KvsValue::Null) => true,
            (KvsValue::Array(a), KvsValue::Array(b)) => {
                proof {
                    lemma_array_model(*a);
                    lemma_array_model(*b);
                }
                if a.len() != b.len() {
                    return false;
                }
                let mut i: usize = 0;
                while i < a.len()
                    invariant
                        0 <= i <= a.len(),
                        a.len() == b.len(),
                        forall|j: int| 0 <= j < i ==> value_eq(a@[j]@, b@[j]@),
                    decreases a.len() - i,
                {
                    if !a[i].same_as(&b[i]) {
                        assert(!value_eq(items_model(a@)[i as int], items_model(b@)[i as int]));
                        return false;
                    }
                    i = i + 1;
                }
                assert forall|j: int| 0 <= j < items_model(a@).len() implies value_eq(
                    #[trigger] items_model(a@)[j],
                    items_model(b@)[j],
                ) by {
                    assert(value_eq(a@[j]@, b@[j]@));
                }
                true
            },
            (KvsValue::Object(a), KvsValue::Object(b)) => {
                proof {
                    lemma_object_model(*a);
                    lemma_object_model(*b);
                }
                a.same_as(b)
            },
            _ => false,
        }
    }
}

impl KvsMap {
    /// Whether the map is valid: no key occurs twice.
    pub fn is_valid(&self) -> (r: bool)
        ensures
            r == self.wf(),
    {
        let ghost pairs = entries_model(self.entries@);
        let mut i: usize = 0;
        while i < self.entries.len()
            invariant
                0 <= i <= self.entries.len(),
                pairs == entries_model(self.entries@),
                forall|a: int, b: int|
                    0 <= a < i && a < b < pairs.len() ==> (#[trigger] pairs[a]).0 != (
                    #[trigger] pairs[b]).0,
            decreases self.entries.len() - i,
        {
            let mut j: usize = i + 1;
            while j < self.entries.len()
                invariant
                    i < j <= self.entries.len(),
                    pairs == entries_model(self.entries@),
                    forall|b: int| i < b < j ==> pairs[i as int].0 != (#[trigger] pairs[b]).0,
                decreases self.entries.len() - j,
            {
                if self.entries[i].0 == self.entries[j].0 {
                    assert(pairs[i as int].0 == pairs[j as int].0);
                    return false;
                }
                j = j + 1;
            }
            i = i + 1;
        }
        true
    }
}

} // verus!
