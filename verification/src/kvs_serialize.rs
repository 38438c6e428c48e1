//! Conversions between ordinary values and stored values.
use vstd::prelude::*;
use vstd::string::StringExecFns;
use crate::error_code::ErrorCode;
use crate::kvs_value::{items_model, lemma_array_model, lemma_object_model, KvsMap, KvsValue, ValueModel};

verus! {

/// How reading an object out of a stored value ends.
pub ghost enum Extraction {
    /// The value has the variant and fits: the object is taken from it.
    Taken,
    /// The value has another variant.
    WrongVariant,
    /// The value has the variant, and its number does not fit the type.
    OutOfRange,
}

/// Whether a result is the error for a value of another variant.
pub open spec fn is_wrong_variant<T>(r: Result<T, ErrorCode>) -> bool {
    r matches Err(ErrorCode::DeserializationFailed(msg)) && msg@ == "Invalid variant provided"@
}

/// Whether a result is the error for a number that does not fit.
pub open spec fn is_out_of_range<T>(r: Result<T, ErrorCode>) -> bool {
    r matches Err(ErrorCode::ConversionFailed)
}

/// The error for a value of another variant.
pub fn wrong_variant() -> (e: ErrorCode)
    ensures
        e matches ErrorCode::DeserializationFailed(msg) && msg@ == "Invalid variant provided"@,
{
    ErrorCode::DeserializationFailed(String::from_str("Invalid variant provided"))
}

/// `KvsValue` serialization trait.
/// Allows object to be serialized into `KvsValue`.
pub trait KvsSerialize {
    /// The value that the object is stored as; `None` for an object that cannot be stored.
    spec fn stored(&self) -> Option<ValueModel>;

    /// Serialize object to `KvsValue`.
    fn to_kvs(&self) -> (r: Result<KvsValue, ErrorCode>)
        ensures
            match self.stored() {
                Some(value) => r is Ok && r->Ok_0@ == value,
                None => r is Err,
            },
    ;
}

/// `KvsValue` deserialization trait.
/// Allows object to be deserialized from `KvsValue`.
pub trait KvsDeserialize: Sized {
    /// How reading an object of this type out of the value ends.
    spec fn extraction(value: ValueModel) -> Extraction;

    /// Whether the object is what the value holds.
    spec fn holds(value: ValueModel, object: Self) -> bool;

    /// Deserialize object from `KvsValue`.
    fn from_kvs(kvs_value: &KvsValue) -> (r: Result<Self, ErrorCode>)
        ensures
            match Self::extraction(kvs_value@) {
                Extraction::Taken => r is Ok && Self::holds(kvs_value@, r->Ok_0),
                Extraction::WrongVariant => is_wrong_variant(r),
                Extraction::OutOfRange => is_out_of_range(r),
            },
    ;
}

impl KvsSerialize for i8 {
    open spec fn stored(&self) -> Option<ValueModel> {
        Some(ValueModel::I32(*self as i32))
    }

    fn to_kvs(&self) -> (r: Result<KvsValue, ErrorCode>) {
        Ok(KvsValue::I32(*self as i32))
    }
}

impl KvsDeserialize for i8 {
    open spec fn extraction(value: ValueModel) -> Extraction {
        match value {
            ValueModel::I32(n) => if i8::MIN <= n <= i8::MAX {
                Extraction::Taken
            } else {
                Extraction::OutOfRange
            },
            _ => Extraction::WrongVariant,
        }
    }

    open spec fn holds(value: ValueModel, object: Self) -> bool {
        value == ValueModel::I32(object as i32)
    }

    fn from_kvs(kvs_value: &KvsValue) -> (r: Result<Self, ErrorCode>) {
        match kvs_value {
            KvsValue::I32(n) => {
                if i8::MIN as i32 <= *n && *n <= i8::MAX as i32 {
                    Ok(*n as i8)
                } else {
                    Err(ErrorCode::ConversionFailed)
                }
            },
            _ => Err(wrong_variant()),
        }
    }
}

impl KvsSerialize for i16 {
    open spec fn stored(&self) -> Option<ValueModel> {
        Some(ValueModel::I32(*self as i32))
    }

    fn to_kvs(&self) -> (r: Result<KvsValue, ErrorCode>) {
        Ok(KvsValue::I32(*self as i32))
    }
}

impl KvsDeserialize for i16 {
    open spec fn extraction(value: ValueModel) -> Extraction {
        match value {
            ValueModel::I32(n) => if i16::MIN <= n <= i16::MAX {
                Extraction::Taken
            } else {
                Extraction::OutOfRange
            },
            _ => Extraction::WrongVariant,
        }
    }

    open spec fn holds(value: ValueModel, object: Self) -> bool {
        value == ValueModel::I32(object as i32)
    }

    fn from_kvs(kvs_value: &KvsValue) -> (r: Result<Self, ErrorCode>) {
        match kvs_value {
            KvsValue::I32(n) => {
                if i16::MIN as i32 <= *n && *n <= i16::MAX as i32 {
                    Ok(*n as i16)
                } else {
                    Err(ErrorCode::ConversionFailed)
                }
            },
            _ => Err(wrong_variant()),
        }
    }
}

impl KvsSerialize for i32 {
    open spec fn stored(&self) -> Option<ValueModel> {
        Some(ValueModel::I32(*self as i32))
    }

    fn to_kvs(&self) -> (r: Result<KvsValue, ErrorCode>) {
        Ok(KvsValue::I32(*self as i32))
    }
}

impl KvsDeserialize for i32 {
    open spec fn extraction(value: ValueModel) -> Extraction {
        match value {
            ValueModel::I32(n) => if i32::MIN <= n <= i32::MAX {
                Extraction::Taken
            } else {
                Extraction::OutOfRange
            },
            _ => Extraction::WrongVariant,
        }
    }

    open spec fn holds(value: ValueModel, object: Self) -> bool {
        value == ValueModel::I32(object as i32)
    }

    fn from_kvs(kvs_value: &KvsValue) -> (r: Result<Self, ErrorCode>) {
        match kvs_value {
            KvsValue::I32(n) => {
                if i32::MIN as i32 <= *n && *n <= i32::MAX as i32 {
                    Ok(*n as i32)
                } else {
                    Err(ErrorCode::ConversionFailed)
                }
            },
            _ => Err(wrong_variant()),
        }
    }
}

impl KvsSerialize for i64 {
    open spec fn stored(&self) -> Option<ValueModel> {
        Some(ValueModel::I64(*self as i64))
    }

    fn to_kvs(&self) -> (r: Result<KvsValue, ErrorCode>) {
        Ok(KvsValue::I64(*self as i64))
    }
}

impl KvsDeserialize for i64 {
    open spec fn extraction(value: ValueModel) -> Extraction {
        match value {
            ValueModel::I64(n) => if i64::MIN <= n <= i64::MAX {
                Extraction::Taken
            } else {
                Extraction::OutOfRange
            },
            _ => Extraction::WrongVariant,
        }
    }

    open spec fn holds(value: ValueModel, object: Self) -> bool {
        value == ValueModel::I64(object as i64)
    }

    fn from_kvs(kvs_value: &KvsValue) -> (r: Result<Self, ErrorCode>) {
        match kvs_value {
            KvsValue::I64(n) => {
                if i64::MIN as i64 <= *n && *n <= i64::MAX as i64 {
                    Ok(*n as i64)
                } else {
                    Err(ErrorCode::ConversionFailed)
                }
            },
            _ => Err(wrong_variant()),
        }
    }
}

impl KvsSerialize for isize {
    open spec fn stored(&self) -> Option<ValueModel> {
        Some(ValueModel::I64(*self as i64))
    }

    fn to_kvs(&self) -> (r: Result<KvsValue, ErrorCode>) {
        Ok(KvsValue::I64(*self as i64))
    }
}

impl KvsDeserialize for isize {
    open spec fn extraction(value: ValueModel) -> Extraction {
        match value {
            ValueModel::I64(n) => if isize::MIN <= n <= isize::MAX {
                Extraction::Taken
            } else {
                Extraction::OutOfRange
            },
            _ => Extraction::WrongVariant,
        }
    }

    open spec fn holds(value: ValueModel, object: Self) -> bool {
        value == ValueModel::I64(object as i64)
    }

    fn from_kvs(kvs_value: &KvsValue) -> (r: Result<Self, ErrorCode>) {
        match kvs_value {
            KvsValue::I64(n) => {
                if isize::MIN as i64 <= *n && *n <= isize::MAX as i64 {
                    Ok(*n as isize)
                } else {
                    Err(ErrorCode::ConversionFailed)
                }
            },
            _ => Err(wrong_variant()),
        }
    }
}

impl KvsSerialize for u8 {
    open spec fn stored(&self) -> Option<ValueModel> {
        Some(ValueModel::U32(*self as u32))
    }

    fn to_kvs(&self) -> (r: Result<KvsValue, ErrorCode>) {
        Ok(KvsValue::U32(*self as u32))
    }
}

impl KvsDeserialize for u8 {
    open spec fn extraction(value: ValueModel) -> Extraction {
        match value {
            ValueModel::U32(n) => if u8::MIN <= n <= u8::MAX {
                Extraction::Taken
            } else {
                Extraction::OutOfRange
            },
            _ => Extraction::WrongVariant,
        }
    }

    open spec fn holds(value: ValueModel, object: Self) -> bool {
        value == ValueModel::U32(object as u32)
    }

    fn from_kvs(kvs_value: &KvsValue) -> (r: Result<Self, ErrorCode>) {
        match kvs_value {
            KvsValue::U32(n) => {
                if u8::MIN as u32 <= *n && *n <= u8::MAX as u32 {
                    Ok(*n as u8)
                } else {
                    Err(ErrorCode::ConversionFailed)
                }
            },
            _ => Err(wrong_variant()),
        }
    }
}

impl KvsSerialize for u16 {
    open spec fn stored(&self) -> Option<ValueModel> {
        Some(ValueModel::U32(*self as u32))
    }

    fn to_kvs(&self) -> (r: Result<KvsValue, ErrorCode>) {
        Ok(KvsValue::U32(*self as u32))
    }
}

impl KvsDeserialize for u16 {
    open spec fn extraction(value: ValueModel) -> Extraction {
        match value {
            ValueModel::U32(n) => if u16::MIN <= n <= u16::MAX {
                Extraction::Taken
            } else {
                Extraction::OutOfRange
            },
            _ => Extraction::WrongVariant,
        }
    }

    open spec fn holds(value: ValueModel, object: Self) -> bool {
        value == ValueModel::U32(object as u32)
    }

    fn from_kvs(kvs_value: &KvsValue) -> (r: Result<Self, ErrorCode>) {
        match kvs_value {
            KvsValue::U32(n) => {
                if u16::MIN as u32 <= *n && *n <= u16::MAX as u32 {
                    Ok(*n as u16)
                } else {
                    Err(ErrorCode::ConversionFailed)
                }
            },
            _ => Err(wrong_variant()),
        }
    }
}

impl KvsSerialize for u32 {
    open spec fn stored(&self) -> Option<ValueModel> {
        Some(ValueModel::U32(*self as u32))
    }

    fn to_kvs(&self) -> (r: Result<KvsValue, ErrorCode>) {
        Ok(KvsValue::U32(*self as u32))
    }
}

impl KvsDeserialize for u32 {
    open spec fn extraction(value: ValueModel) -> Extraction {
        match value {
            ValueModel::U32(n) => if u32::MIN <= n <= u32::MAX {
                Extraction::Taken
            } else {
                Extraction::OutOfRange
            },
            _ => Extraction::WrongVariant,
        }
    }

    open spec fn holds(value: ValueModel, object: Self) -> bool {
        value == ValueModel::U32(object as u32)
    }

    fn from_kvs(kvs_value: &KvsValue) -> (r: Result<Self, ErrorCode>) {
        match kvs_value {
            KvsValue::U32(n) => {
                if u32::MIN as u32 <= *n && *n <= u32::MAX as u32 {
                    Ok(*n as u32)
                } else {
                    Err(ErrorCode::ConversionFailed)
                }
            },
            _ => Err(wrong_variant()),
        }
    }
}

impl KvsSerialize for u64 {
    open spec fn stored(&self) -> Option<ValueModel> {
        Some(ValueModel::U64(*self as u64))
    }

    fn to_kvs(&self) -> (r: Result<KvsValue, ErrorCode>) {
        Ok(KvsValue::U64(*self as u64))
    }
}

impl KvsDeserialize for u64 {
    open spec fn extraction(value: ValueModel) -> Extraction {
        match value {
            ValueModel::U64(n) => if u64::MIN <= n <= u64::MAX {
                Extraction::Taken
            } else {
                Extraction::OutOfRange
            },
            _ => Extraction::WrongVariant,
        }
    }

    open spec fn holds(value: ValueModel, object: Self) -> bool {
        value == ValueModel::U64(object as u64)
    }

    fn from_kvs(kvs_value: &KvsValue) -> (r: Result<Self, ErrorCode>) {
        match kvs_value {
            KvsValue::U64(n) => {
                if u64::MIN as u64 <= *n && *n <= u64::MAX as u64 {
                    Ok(*n as u64)
                } else {
                    Err(ErrorCode::ConversionFailed)
                }
            },
            _ => Err(wrong_variant()),
        }
    }
}

impl KvsSerialize for usize {
    open spec fn stored(&self) -> Option<ValueModel> {
        Some(ValueModel::U64(*self as u64))
    }

    fn to_kvs(&self) -> (r: Result<KvsValue, ErrorCode>) {
        Ok(KvsValue::U64(*self as u64))
    }
}

impl KvsDeserialize for usize {
    open spec fn extraction(value: ValueModel) -> Extraction {
        match value {
            ValueModel::U64(n) => if usize::MIN <= n <= usize::MAX {
                Extraction::Taken
            } else {
                Extraction::OutOfRange
            },
            _ => Extraction::WrongVariant,
        }
    }

    open spec fn holds(value: ValueModel, object: Self) -> bool {
        value == ValueModel::U64(object as u64)
    }

    fn from_kvs(kvs_value: &KvsValue) -> (r: Result<Self, ErrorCode>) {
        match kvs_value {
            KvsValue::U64(n) => {
                if usize::MIN as u64 <= *n && *n <= usize::MAX as u64 {
                    Ok(*n as usize)
                } else {
                    Err(ErrorCode::ConversionFailed)
                }
            },
            _ => Err(wrong_variant()),
        }
    }
}

impl KvsSerialize for bool {
    open spec fn stored(&self) -> Option<ValueModel> {
        Some(ValueModel::Boolean(*self))
    }

    fn to_kvs(&self) -> (r: Result<KvsValue, ErrorCode>) {
        Ok(KvsValue::Boolean(*self))
    }
}

impl KvsDeserialize for bool {
    open spec fn extraction(value: ValueModel) -> Extraction {
        match value {
            ValueModel::Boolean(_) => Extraction::Taken,
            _ => Extraction::WrongVariant,
        }
    }

    open spec fn holds(value: ValueModel, object: Self) -> bool {
        value == ValueModel::Boolean(object)
    }

    fn from_kvs(kvs_value: &KvsValue) -> (r: Result<Self, ErrorCode>) {
        match kvs_value {
            KvsValue::Boolean(b) => Ok(*b),
            _ => Err(wrong_variant()),
        }
    }
}

impl KvsSerialize for String {
    open spec fn stored(&self) -> Option<ValueModel> {
        Some(ValueModel::String(self@))
    }

    fn to_kvs(&self) -> (r: Result<KvsValue, ErrorCode>) {
        Ok(KvsValue::String(self.clone()))
    }
}

impl KvsDeserialize for String {
    open spec fn extraction(value: ValueModel) -> Extraction {
        match value {
            ValueModel::String(_) => Extraction::Taken,
            _ => Extraction::WrongVariant,
        }
    }

    open spec fn holds(value: ValueModel, object: Self) -> bool {
        value == ValueModel::String(object@)
    }

    fn from_kvs(kvs_value: &KvsValue) -> (r: Result<Self, ErrorCode>) {
        match kvs_value {
            KvsValue::String(s) => Ok(s.clone()),
            _ => Err(wrong_variant()),
        }
    }
}

impl KvsSerialize for &str {
    open spec fn stored(&self) -> Option<ValueModel> {
        Some(ValueModel::String(self@))
    }

    fn to_kvs(&self) -> (r: Result<KvsValue, ErrorCode>) {
        Ok(KvsValue::String(String::from_str(*self)))
    }
}

impl KvsSerialize for () {
    open spec fn stored(&self) -> Option<ValueModel> {
        Some(ValueModel::Null)
    }

    fn to_kvs(&self) -> (r: Result<KvsValue, ErrorCode>) {
        Ok(KvsValue::Null)
    }
}

impl KvsDeserialize for () {
    open spec fn extraction(value: ValueModel) -> Extraction {
        match value {
            ValueModel::Null => Extraction::Taken,
            _ => Extraction::WrongVariant,
        }
    }

    open spec fn holds(value: ValueModel, object: Self) -> bool {
        value == ValueModel::Null
    }

    fn from_kvs(kvs_value: &KvsValue) -> (r: Result<Self, ErrorCode>) {
        match kvs_value {
            KvsValue::Null => Ok(()),
            _ => Err(wrong_variant()),
        }
    }
}

impl KvsSerialize for KvsValue {
    open spec fn stored(&self) -> Option<ValueModel> {
        Some(self@)
    }

    fn to_kvs(&self) -> (r: Result<KvsValue, ErrorCode>) {
        Ok(self.clone())
    }
}

impl KvsDeserialize for KvsValue {
    open spec fn extraction(value: ValueModel) -> Extraction {
        Extraction::Taken
    }

    open spec fn holds(value: ValueModel, object: Self) -> bool {
        value == object@
    }

    fn from_kvs(kvs_value: &KvsValue) -> (r: Result<Self, ErrorCode>) {
        Ok(kvs_value.clone())
    }
}

impl KvsSerialize for Vec<KvsValue> {
    open spec fn stored(&self) -> Option<ValueModel> {
        Some(ValueModel::Array(items_model(self@)))
    }

    fn to_kvs(&self) -> (r: Result<KvsValue, ErrorCode>) {
        let copy = KvsValue::Array(clone_items(self));
        Ok(copy)
    }
}

impl KvsDeserialize for Vec<KvsValue> {
    open spec fn extraction(value: ValueModel) -> Extraction {
        match value {
            ValueModel::Array(_) => Extraction::Taken,
            _ => Extraction::WrongVariant,
        }
    }

    open spec fn holds(value: ValueModel, object: Self) -> bool {
        value == ValueModel::Array(items_model(object@))
    }

    fn from_kvs(kvs_value: &KvsValue) -> (r: Result<Self, ErrorCode>) {
        match kvs_value {
            KvsValue::Array(items) => {
                proof {
                    lemma_array_model(*items);
                }
                let copy = clone_items(items);
                proof {
                    let boxed = KvsValue::Array(copy);
                    assert(boxed@ == ValueModel::Array(items_model(items@)));
                    lemma_array_model(copy);
                }
                Ok(copy)
            },
            _ => Err(wrong_variant()),
        }
    }
}

/// A deep copy of the items; boxed as an array it has the model of the array of the items.
fn clone_items(items: &Vec<KvsValue>) -> (r: Vec<KvsValue>)
    ensures
        KvsValue::Array(r)@ == ValueModel::Array(items_model(items@)),
{
    let mut copy: Vec<KvsValue> = Vec::new();
    let mut i: usize = 0;
    while i < items.len()
        invariant
            0 <= i <= items.len(),
            copy.len() == i,
            forall|j: int| 0 <= j < i ==> copy@[j]@ == items@[j]@,
        decreases items.len() - i,
    {
        copy.push(items[i].clone());
        i = i + 1;
    }
    proof {
        lemma_array_model(copy);
        assert(items_model(copy@) =~= items_model(items@));
    }
    copy
}

impl KvsSerialize for KvsMap {
    open spec fn stored(&self) -> Option<ValueModel> {
        Some(ValueModel::Object(self@))
    }

    fn to_kvs(&self) -> (r: Result<KvsValue, ErrorCode>) {
        let copy = self.clone();
        proof {
            lemma_object_model(copy);
        }
        Ok(KvsValue::Object(copy))
    }
}

impl KvsDeserialize for KvsMap {
    open spec fn extraction(value: ValueModel) -> Extraction {
        match value {
            ValueModel::Object(_) => Extraction::Taken,
            _ => Extraction::WrongVariant,
        }
    }

    open spec fn holds(value: ValueModel, object: Self) -> bool {
        value == ValueModel::Object(object@)
    }

    fn from_kvs(kvs_value: &KvsValue) -> (r: Result<Self, ErrorCode>) {
        match kvs_value {
            KvsValue::Object(map) => {
                proof {
                    lemma_object_model(*map);
                }
                Ok(map.clone())
            },
            _ => Err(wrong_variant()),
        }
    }
}

} // verus!
