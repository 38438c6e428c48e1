//! Making a stored value from an ordinary value, and borrowing what a stored value holds.
use vstd::prelude::*;
use vstd::std_specs::convert::FromSpecImpl;
use vstd::string::StringExecFns;
use crate::kvs_value::{KvsMap, KvsValue};

verus! {

impl From<i32> for KvsValue {
    fn from(val: i32) -> (r: Self) {
        KvsValue::I32(val)
    }
}

impl FromSpecImpl<i32> for KvsValue {
    open spec fn obeys_from_spec() -> bool {
        true
    }

    open spec fn from_spec(val: i32) -> Self {
        KvsValue::I32(val)
    }
}

impl From<u32> for KvsValue {
    fn from(val: u32) -> (r: Self) {
        KvsValue::U32(val)
    }
}

impl FromSpecImpl<u32> for KvsValue {
    open spec fn obeys_from_spec() -> bool {
        true
    }

    open spec fn from_spec(val: u32) -> Self {
        KvsValue::U32(val)
    }
}

impl From<i64> for KvsValue {
    fn from(val: i64) -> (r: Self) {
        KvsValue::I64(val)
    }
}

impl FromSpecImpl<i64> for KvsValue {
    open spec fn obeys_from_spec() -> bool {
        true
    }

    open spec fn from_spec(val: i64) -> Self {
        KvsValue::I64(val)
    }
}

impl From<u64> for KvsValue {
    fn from(val: u64) -> (r: Self) {
        KvsValue::U64(val)
    }
}

impl FromSpecImpl<u64> for KvsValue {
    open spec fn obeys_from_spec() -> bool {
        true
    }

    open spec fn from_spec(val: u64) -> Self {
        KvsValue::U64(val)
    }
}

impl From<bool> for KvsValue {
    fn from(val: bool) -> (r: Self) {
        KvsValue::Boolean(val)
    }
}

impl FromSpecImpl<bool> for KvsValue {
    open spec fn obeys_from_spec() -> bool {
        true
    }

    open spec fn from_spec(val: bool) -> Self {
        KvsValue::Boolean(val)
    }
}

impl From<String> for KvsValue {
    fn from(val: String) -> (r: Self) {
        KvsValue::String(val)
    }
}

impl FromSpecImpl<String> for KvsValue {
    open spec fn obeys_from_spec() -> bool {
        true
    }

    open spec fn from_spec(val: String) -> Self {
        KvsValue::String(val)
    }
}

impl From<Vec<KvsValue>> for KvsValue {
    fn from(val: Vec<KvsValue>) -> (r: Self) {
        KvsValue::Array(val)
    }
}

impl FromSpecImpl<Vec<KvsValue>> for KvsValue {
    open spec fn obeys_from_spec() -> bool {
        true
    }

    open spec fn from_spec(val: Vec<KvsValue>) -> Self {
        KvsValue::Array(val)
    }
}

impl From<KvsMap> for KvsValue {
    fn from(val: KvsMap) -> (r: Self) {
        KvsValue::Object(val)
    }
}

impl FromSpecImpl<KvsMap> for KvsValue {
    open spec fn obeys_from_spec() -> bool {
        true
    }

    open spec fn from_spec(val: KvsMap) -> Self {
        KvsValue::Object(val)
    }
}

impl From<()> for KvsValue {
    fn from(val: ()) -> (r: Self) {
        KvsValue::Null
    }
}

impl FromSpecImpl<()> for KvsValue {
    open spec fn obeys_from_spec() -> bool {
        true
    }

    open spec fn from_spec(val: ()) -> Self {
        KvsValue::Null
    }
}

/// The string value with the given text.
pub fn string_value(text: &str) -> (r: KvsValue)
    ensures
        r matches KvsValue::String(s) && s@ == text@,
{
    KvsValue::String(String::from_str(text))
}

/// Trait for extracting inner values from KvsValue
pub trait KvsValueGet: Sized {
    /// Whether the value has the variant that holds a `Self`.
    spec fn is_held(val: KvsValue) -> bool;

    /// What the value holds, where it holds a `Self`.
    spec fn held(val: KvsValue) -> Self;

    /// What the value holds, if it has the variant for a `Self`.
    fn get_inner_value(val: &KvsValue) -> (r: Option<&Self>)
        ensures
            r is Some <==> Self::is_held(*val),
            r is Some ==> *r->Some_0 == Self::held(*val),
    ;
}

impl KvsValue {
    /// What the value holds, if it has the variant for a `T`.
    pub fn get<T: KvsValueGet>(&self) -> (r: Option<&T>)
        ensures
            r is Some <==> T::is_held(*self),
            r is Some ==> *r->Some_0 == T::held(*self),
    {
        T::get_inner_value(self)
    }
}

impl KvsValueGet for i32 {
    open spec fn is_held(val: KvsValue) -> bool {
        val is I32
    }

    open spec fn held(val: KvsValue) -> Self {
        val->I32_0
    }

    fn get_inner_value(val: &KvsValue) -> (r: Option<&i32>) {
        match val {
            KvsValue::I32(n) => Some(n),
            _ => None,
        }
    }
}

impl KvsValueGet for u32 {
    open spec fn is_held(val: KvsValue) -> bool {
        val is U32
    }

    open spec fn held(val: KvsValue) -> Self {
        val->U32_0
    }

    fn get_inner_value(val: &KvsValue) -> (r: Option<&u32>) {
        match val {
            KvsValue::U32(n) => Some(n),
            _ => None,
        }
    }
}

impl KvsValueGet for i64 {
    open spec fn is_held(val: KvsValue) -> bool {
        val is I64
    }

    open spec fn held(val: KvsValue) -> Self {
        val->I64_0
    }

    fn get_inner_value(val: &KvsValue) -> (r: Option<&i64>) {
        match val {
            KvsValue::I64(n) => Some(n),
            _ => None,
        }
    }
}

impl KvsValueGet for u64 {
    open spec fn is_held(val: KvsValue) -> bool {
        val is U64
    }

    open spec fn held(val: KvsValue) -> Self {
        val->U64_0
    }

    fn get_inner_value(val: &KvsValue) -> (r: Option<&u64>) {
        match val {
            KvsValue::U64(n) => Some(n),
            _ => None,
        }
    }
}

impl KvsValueGet for bool {
    open spec fn is_held(val: KvsValue) -> bool {
        val is Boolean
    }

    open spec fn held(val: KvsValue) -> Self {
        val->Boolean_0
    }

    fn get_inner_value(val: &KvsValue) -> (r: Option<&bool>) {
        match val {
            KvsValue::Boolean(n) => Some(n),
            _ => None,
        }
    }
}

impl KvsValueGet for String {
    open spec fn is_held(val: KvsValue) -> bool {
        val is String
    }

    open spec fn held(val: KvsValue) -> Self {
        val->String_0
    }

    fn get_inner_value(val: &KvsValue) -> (r: Option<&String>) {
        match val {
            KvsValue::String(n) => Some(n),
            _ => None,
        }
    }
}

impl KvsValueGet for Vec<KvsValue> {
    open spec fn is_held(val: KvsValue) -> bool {
        val is Array
    }

    open spec fn held(val: KvsValue) -> Self {
        val->Array_0
    }

    fn get_inner_value(val: &KvsValue) -> (r: Option<&Vec<KvsValue>>) {
        match val {
            KvsValue::Array(n) => Some(n),
            _ => None,
        }
    }
}

impl KvsValueGet for KvsMap {
    open spec fn is_held(val: KvsValue) -> bool {
        val is Object
    }

    open spec fn held(val: KvsValue) -> Self {
        val->Object_0
    }

    fn get_inner_value(val: &KvsValue) -> (r: Option<&KvsMap>) {
        match val {
            KvsValue::Object(n) => Some(n),
            _ => None,
        }
    }
}

impl KvsValueGet for () {
    open spec fn is_held(val: KvsValue) -> bool {
        val is Null
    }

    open spec fn held(val: KvsValue) -> Self {
        ()
    }

    fn get_inner_value(val: &KvsValue) -> (r: Option<&()>) {
        match val {
            KvsValue::Null => Some(&()),
            _ => None,
        }
    }
}

} // verus!
