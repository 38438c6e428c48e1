//! `==` on stored values and maps.
use vstd::prelude::*;
use vstd::std_specs::cmp::PartialEqSpecImpl;
use crate::kvs_value::{map_eq, value_eq, KvsMap, KvsValue};

verus! {

impl PartialEq for KvsValue {
    /// Two values are equal where they are the same variant with equal payloads; floats are
    /// compared as numbers.
    fn eq(&self, other: &Self) -> (r: bool) {
        self.same_as(other)
    }
}

impl PartialEqSpecImpl for KvsValue {
    open spec fn obeys_eq_spec() -> bool {
        true
    }

    open spec fn eq_spec(&self, other: &Self) -> bool {
        value_eq(self@, other@)
    }
}

impl PartialEq for KvsMap {
    /// Two maps are equal where they hold the same values under the same keys.
    fn eq(&self, other: &Self) -> (r: bool) {
        self.same_as(other)
    }
}

impl PartialEqSpecImpl for KvsMap {
    open spec fn obeys_eq_spec() -> bool {
        true
    }

    open spec fn eq_spec(&self, other: &Self) -> bool {
        map_eq(self@, other@)
    }
}

} // verus!
