//! Taking what a stored value holds, by value: `TryFrom<&KvsValue>` for the plain types.
//!
//! A value of another variant is a failed conversion.
use vstd::prelude::*;
use vstd::std_specs::convert::TryFromSpecImpl;
use crate::error_code::ErrorCode;
use crate::kvs_value::KvsValue;

verus! {

impl TryFrom<&KvsValue> for i32 {
    type Error = ErrorCode;

    fn try_from(value: &KvsValue) -> (r: Result<Self, ErrorCode>) {
        match value {
            KvsValue::I32(n) => Ok(*n),
            _ => Err(ErrorCode::ConversionFailed),
        }
    }
}

impl TryFromSpecImpl<&KvsValue> for i32 {
    open spec fn obeys_try_from_spec() -> bool {
        true
    }

    open spec fn try_from_spec(value: &KvsValue) -> Result<Self, ErrorCode> {
        match value {
            KvsValue::I32(n) => Ok(*n),
            _ => Err(ErrorCode::ConversionFailed),
        }
    }
}

impl TryFrom<&KvsValue> for u32 {
    type Error = ErrorCode;

    fn try_from(value: &KvsValue) -> (r: Result<Self, ErrorCode>) {
        match value {
            KvsValue::U32(n) => Ok(*n),
            _ => Err(ErrorCode::ConversionFailed),
        }
    }
}

impl TryFromSpecImpl<&KvsValue> for u32 {
    open spec fn obeys_try_from_spec() -> bool {
        true
    }

    open spec fn try_from_spec(value: &KvsValue) -> Result<Self, ErrorCode> {
        match value {
            KvsValue::U32(n) => Ok(*n),
            _ => Err(ErrorCode::ConversionFailed),
        }
    }
}

impl TryFrom<&KvsValue> for i64 {
    type Error = ErrorCode;

    fn try_from(value: &KvsValue) -> (r: Result<Self, ErrorCode>) {
        match value {
            KvsValue::I64(n) => Ok(*n),
            _ => Err(ErrorCode::ConversionFailed),
        }
    }
}

impl TryFromSpecImpl<&KvsValue> for i64 {
    open spec fn obeys_try_from_spec() -> bool {
        true
    }

    open spec fn try_from_spec(value: &KvsValue) -> Result<Self, ErrorCode> {
        match value {
            KvsValue::I64(n) => Ok(*n),
            _ => Err(ErrorCode::ConversionFailed),
        }
    }
}

impl TryFrom<&KvsValue> for u64 {
    type Error = ErrorCode;

    fn try_from(value: &KvsValue) -> (r: Result<Self, ErrorCode>) {
        match value {
            KvsValue::U64(n) => Ok(*n),
            _ => Err(ErrorCode::ConversionFailed),
        }
    }
}

impl TryFromSpecImpl<&KvsValue> for u64 {
    open spec fn obeys_try_from_spec() -> bool {
        true
    }

    open spec fn try_from_spec(value: &KvsValue) -> Result<Self, ErrorCode> {
        match value {
            KvsValue::U64(n) => Ok(*n),
            _ => Err(ErrorCode::ConversionFailed),
        }
    }
}

impl TryFrom<&KvsValue> for bool {
    type Error = ErrorCode;

    fn try_from(value: &KvsValue) -> (r: Result<Self, ErrorCode>) {
        match value {
            KvsValue::Boolean(n) => Ok(*n),
            _ => Err(ErrorCode::ConversionFailed),
        }
    }
}

impl TryFromSpecImpl<&KvsValue> for bool {
    open spec fn obeys_try_from_spec() -> bool {
        true
    }

    open spec fn try_from_spec(value: &KvsValue) -> Result<Self, ErrorCode> {
        match value {
            KvsValue::Boolean(n) => Ok(*n),
            _ => Err(ErrorCode::ConversionFailed),
        }
    }
}

impl TryFrom<&KvsValue> for String {
    type Error = ErrorCode;

    fn try_from(value: &KvsValue) -> (r: Result<Self, ErrorCode>) {
        match value {
            KvsValue::String(s) => Ok(s.clone()),
            _ => Err(ErrorCode::ConversionFailed),
        }
    }
}

impl TryFromSpecImpl<&KvsValue> for String {
    open spec fn obeys_try_from_spec() -> bool {
        true
    }

    open spec fn try_from_spec(value: &KvsValue) -> Result<Self, ErrorCode> {
        match value {
            KvsValue::String(s) => Ok(*s),
            _ => Err(ErrorCode::ConversionFailed),
        }
    }
}

impl TryFrom<&KvsValue> for () {
    type Error = ErrorCode;

    fn try_from(value: &KvsValue) -> (r: Result<Self, ErrorCode>) {
        match value {
            KvsValue::Null => Ok(()),
            _ => Err(ErrorCode::ConversionFailed),
        }
    }
}

impl TryFromSpecImpl<&KvsValue> for () {
    open spec fn obeys_try_from_spec() -> bool {
        true
    }

    open spec fn try_from_spec(value: &KvsValue) -> Result<Self, ErrorCode> {
        match value {
            KvsValue::Null => Ok(()),
            _ => Err(ErrorCode::ConversionFailed),
        }
    }
}

} // verus!
