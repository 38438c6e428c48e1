//! A stand-in for a key-value storage instance: one map, no defaults, no snapshots, and a
//! switch that makes every operation fail.
use vstd::prelude::*;
use vstd::string::StringExecFns;
use crate::error_code::ErrorCode;
use crate::kvs_api::SnapshotId;
use crate::kvs_serialize::{is_out_of_range, Extraction, KvsDeserialize, KvsSerialize};
use crate::kvs_value::{is_key_list, KvsMap, KvsValue, ValueModel};

verus! {

/// A stand-in for a key-value storage instance.
#[derive(Debug)]
pub struct MockKvs {
    /// The map.
    pub map: KvsMap,
    /// Whether every operation fails with `UnmappedError`.
    pub fail: bool,
}

/// Whether a result is the failure of a mock that was told to fail.
pub open spec fn is_unmapped<T>(r: Result<T, ErrorCode>) -> bool {
    r is Err && r->Err_0 == ErrorCode::UnmappedError
}

impl Default for MockKvs {
    fn default() -> (r: Self)
        ensures
            r.map.wf(),
            r.map@ == Map::<Seq<char>, ValueModel>::empty(),
            !r.fail,
    {
        Self { map: KvsMap::new(), fail: false }
    }
}

impl MockKvs {
    /// A mock over the given map.
    pub fn new(kvs_map: KvsMap, fail: bool) -> (r: Result<Self, ErrorCode>)
        ensures
            r is Ok,
            r->Ok_0.map == kvs_map,
            r->Ok_0.fail == fail,
    {
        Ok(MockKvs { map: kvs_map, fail })
    }

    /// Empties the map.
    pub fn reset(&mut self) -> (r: Result<(), ErrorCode>)
        ensures
            final(self).fail == old(self).fail,
            old(self).fail ==> is_unmapped(r) && final(self).map == old(self).map,
            !old(self).fail ==> r is Ok && final(self).map.wf() && final(self).map@ == Map::<
                Seq<char>,
                ValueModel,
            >::empty(),
    {
        if self.fail {
            return Err(ErrorCode::UnmappedError);
        }
        self.map = KvsMap::new();
        Ok(())
    }

    /// Takes the key out of the map; `KeyDefaultNotFound` where it is not there.
    pub fn reset_key(&mut self, key: &str) -> (r: Result<(), ErrorCode>)
        requires
            old(self).map.wf(),
        ensures
            final(self).fail == old(self).fail,
            final(self).map.wf(),
            old(self).fail ==> is_unmapped(r) && final(self).map == old(self).map,
            !old(self).fail ==> final(self).map@ == old(self).map@.remove(key@),
            !old(self).fail && old(self).map@.dom().contains(key@) ==> r is Ok,
            !old(self).fail && !old(self).map@.dom().contains(key@) ==> r is Err && r->Err_0
                == ErrorCode::KeyDefaultNotFound,
    {
        if self.fail {
            return Err(ErrorCode::UnmappedError);
        }
        match self.map.remove(key) {
            Some(_) => Ok(()),
            None => Err(ErrorCode::KeyDefaultNotFound),
        }
    }

    /// The keys of the map.
    pub fn get_all_keys(&self) -> (r: Result<Vec<String>, ErrorCode>)
        requires
            self.map.wf(),
        ensures
            self.fail ==> is_unmapped(r),
            !self.fail ==> r is Ok && is_key_list(r->Ok_0@, self.map@),
    {
        if self.fail {
            return Err(ErrorCode::UnmappedError);
        }
        Ok(self.map.keys())
    }

    /// Whether the key is in the map.
    pub fn key_exists(&self, key: &str) -> (r: Result<bool, ErrorCode>)
        ensures
            self.fail ==> is_unmapped(r),
            !self.fail ==> r is Ok && r->Ok_0 == self.map@.dom().contains(key@),
    {
        if self.fail {
            return Err(ErrorCode::UnmappedError);
        }
        Ok(self.map.contains_key(key))
    }

    /// The value under the key; `KeyNotFound` where there is none.
    pub fn get_value(&self, key: &str) -> (r: Result<KvsValue, ErrorCode>)
        requires
            self.map.wf(),
        ensures
            self.fail ==> is_unmapped(r),
            !self.fail && self.map@.dom().contains(key@) ==> r is Ok && r->Ok_0@
                == self.map@[key@],
            !self.fail && !self.map@.dom().contains(key@) ==> r is Err && r->Err_0
                == ErrorCode::KeyNotFound,
    {
        if self.fail {
            return Err(ErrorCode::UnmappedError);
        }
        match self.map.get(key) {
            Some(value) => Ok(value.clone()),
            None => Err(ErrorCode::KeyNotFound),
        }
    }

    /// The value under the key as a `T`; `KeyNotFound` where there is none, `ConversionFailed`
    /// where it gives no `T`.
    pub fn get_value_as<T: KvsDeserialize>(&self, key: &str) -> (r: Result<T, ErrorCode>)
        requires
            self.map.wf(),
        ensures
            self.fail ==> is_unmapped(r),
            !self.fail && !self.map@.dom().contains(key@) ==> r is Err && r->Err_0
                == ErrorCode::KeyNotFound,
            !self.fail && self.map@.dom().contains(key@) ==> match T::extraction(
                self.map@[key@],
            ) {
                Extraction::Taken => r is Ok && T::holds(self.map@[key@], r->Ok_0),
                _ => is_out_of_range(r),
            },
    {
        if self.fail {
            return Err(ErrorCode::UnmappedError);
        }
        match self.map.get(key) {
            Some(value) => match T::from_kvs(value) {
                Ok(object) => Ok(object),
                Err(e) => Err(ErrorCode::ConversionFailed),
            },
            None => Err(ErrorCode::KeyNotFound),
        }
    }

    /// The mock has no defaults: `KeyNotFound`.
    pub fn get_default_value(&self, key: &str) -> (r: Result<KvsValue, ErrorCode>)
        ensures
            self.fail ==> is_unmapped(r),
            !self.fail ==> r is Err && r->Err_0 == ErrorCode::KeyNotFound,
    {
        if self.fail {
            return Err(ErrorCode::UnmappedError);
        }
        Err(ErrorCode::KeyNotFound)
    }

    /// The mock has no defaults: `false`.
    pub fn is_value_default(&self, key: &str) -> (r: Result<bool, ErrorCode>)
        ensures
            self.fail ==> is_unmapped(r),
            !self.fail ==> r == Ok::<bool, ErrorCode>(false),
    {
        if self.fail {
            return Err(ErrorCode::UnmappedError);
        }
        Ok(false)
    }

    /// Stores the value under the key.
    pub fn set_value<V: KvsSerialize>(&mut self, key: &str, value: V) -> (r: Result<(), ErrorCode>)
        requires
            old(self).map.wf(),
        ensures
            final(self).fail == old(self).fail,
            final(self).map.wf(),
            old(self).fail ==> is_unmapped(r) && final(self).map == old(self).map,
            !old(self).fail ==> match value.stored() {
                Some(stored) => r is Ok && final(self).map@ == old(self).map@.insert(key@, stored),
                None => r is Err && final(self).map@ == old(self).map@,
            },
    {
        if self.fail {
            return Err(ErrorCode::UnmappedError);
        }
        match value.to_kvs() {
            Ok(stored) => {
                self.map.insert(String::from_str(key), stored);
                Ok(())
            },
            Err(e) => Err(e),
        }
    }

    /// Takes the key out of the map, whether it is there or not.
    pub fn remove_key(&mut self, key: &str) -> (r: Result<(), ErrorCode>)
        requires
            old(self).map.wf(),
        ensures
            final(self).fail == old(self).fail,
            final(self).map.wf(),
            old(self).fail ==> is_unmapped(r) && final(self).map == old(self).map,
            !old(self).fail ==> r is Ok && final(self).map@ == old(self).map@.remove(key@),
    {
        if self.fail {
            return Err(ErrorCode::UnmappedError);
        }
        let _ = self.map.remove(key);
        Ok(())
    }

    /// Nothing is stored.
    pub fn flush(&self) -> (r: Result<(), ErrorCode>)
        ensures
            self.fail ==> is_unmapped(r),
            !self.fail ==> r is Ok,
    {
        if self.fail {
            return Err(ErrorCode::UnmappedError);
        }
        Ok(())
    }

    /// No snapshots; 9999 from a mock that was told to fail.
    pub fn snapshot_count(&self) -> (r: usize)
        ensures
            r == if self.fail {
                9999usize
            } else {
                0usize
            },
    {
        if self.fail {
            return 9999;
        }
        0
    }

    /// No room for snapshots.
    pub fn snapshot_max_count(&self) -> (r: usize)
        ensures
            r == 0,
    {
        0
    }

    /// Nothing is restored.
    pub fn snapshot_restore(&self, id: SnapshotId) -> (r: Result<(), ErrorCode>)
        ensures
            self.fail ==> is_unmapped(r),
            !self.fail ==> r is Ok,
    {
        if self.fail {
            return Err(ErrorCode::UnmappedError);
        }
        Ok(())
    }
}

} // verus!
