//! The JSON backend: snapshot files with an integrity digest beside each, and their rotation.
//!
//! The backend works on the files of one instance held in memory: the text of each payload
//! file and the bytes of each digest file, or the fact that the file is missing. Reading them
//! from a directory and writing them back is left to the caller.
use vstd::prelude::*;
use vstd::string::StringExecFns;
use crate::error_code::ErrorCode;
use crate::file_names::{
    check_extension, decimal, decimal_text, join, join_path, lemma_decimal_end,
    lemma_joined_extension, path_extension,
};
use vstd::utf8::encode_utf8;
use crate::integrity::{digest_of, lemma_one_byte_changes_checksum, matches_digest, seal};
use crate::json_value::{
    decode, encode_map, exact, json_parse_of, lemma_node_object, lemma_snapshot_round_trip,
    payload_key, tag_key, JsonModel, JsonNode, JsonObject,
};
use crate::kvs_api::{InstanceId, SnapshotId};
use crate::kvs_backend::{is_outcome, DynEq, KvsBackend};
use crate::kvs_value::{map_eq, KvsMap, KvsValue, ValueModel};

verus! {

/// The two files of one snapshot: the payload text and the digest bytes, each `None` where the
/// file is missing.
pub ghost struct FilesModel {
    pub payload: Option<Seq<char>>,
    pub digest: Option<Seq<u8>>,
}

impl FilesModel {
    /// Both files are missing.
    pub open spec fn missing() -> FilesModel {
        FilesModel { payload: None, digest: None }
    }

    /// Both files are there.
    pub open spec fn is_full(self) -> bool {
        self.payload is Some && self.digest is Some
    }

    /// Neither file is there.
    pub open spec fn is_missing(self) -> bool {
        self.payload is None && self.digest is None
    }
}

/// The two files of one snapshot as they are in storage.
#[derive(Debug)]
pub struct SnapshotFiles {
    /// The text of the payload file, `None` where the file is missing.
    pub payload: Option<String>,
    /// The bytes of the digest file, `None` where the file is missing.
    pub digest: Option<Vec<u8>>,
}

impl View for SnapshotFiles {
    type V = FilesModel;

    open spec fn view(&self) -> FilesModel {
        FilesModel {
            payload: match self.payload {
                Some(text) => Some(text@),
                None => None,
            },
            digest: match self.digest {
                Some(bytes) => Some(bytes@),
                None => None,
            },
        }
    }
}

impl SnapshotFiles {
    /// Both files missing.
    pub fn missing() -> (r: Self)
        ensures
            r@ == FilesModel::missing(),
    {
        SnapshotFiles { payload: None, digest: None }
    }

    /// A copy with the same contents.
    pub fn duplicate(&self) -> (r: Self)
        ensures
            r@ == self@,
    {
        let payload = match &self.payload {
            Some(text) => Some(text.clone()),
            None => None,
        };
        let digest = match &self.digest {
            Some(bytes) => {
                let copy = bytes.clone();
                assert(copy@ =~= bytes@);
                Some(copy)
            },
            None => None,
        };
        SnapshotFiles { payload, digest }
    }
}

/// The files of one instance: those of its defaults, and those of its snapshots by snapshot ID.
#[derive(Debug)]
pub struct InstanceFiles {
    /// The defaults payload and its digest.
    pub defaults: SnapshotFiles,
    /// The snapshots: position `i` holds the files of snapshot `i`.
    pub snapshots: Vec<SnapshotFiles>,
}

impl InstanceFiles {
    /// The snapshot files, by snapshot ID.
    pub open spec fn slots(self) -> Seq<FilesModel> {
        Seq::new(self.snapshots@.len(), |i: int| self.snapshots@[i]@)
    }

    /// The files of an instance that has nothing in storage, with room for `snapshot_max_count`
    /// snapshots.
    pub fn new(snapshot_max_count: usize) -> (r: Self)
        ensures
            r.defaults@ == FilesModel::missing(),
            r.slots().len() == snapshot_max_count,
            forall|i: int| 0 <= i < snapshot_max_count ==> r.slots()[i] == FilesModel::missing(),
    {
        let mut snapshots: Vec<SnapshotFiles> = Vec::new();
        let mut i: usize = 0;
        while i < snapshot_max_count
            invariant
                i <= snapshot_max_count,
                snapshots@.len() == i,
                forall|j: int| 0 <= j < i ==> snapshots@[j]@ == FilesModel::missing(),
            decreases snapshot_max_count - i,
        {
            snapshots.push(SnapshotFiles::missing());
            i = i + 1;
        }
        InstanceFiles { defaults: SnapshotFiles::missing(), snapshots }
    }
}

/// What loading a payload with its digest gives. In this order: a payload path that does not
/// end in `.json` is a KVS file read error, a digest path that does not end in `.hash` a hash
/// file read error, a missing payload is not found, a digest that is there and is not the one
/// of the payload text fails validation, a text that is no JSON is a parser error, a missing
/// digest is not found, and a document that stands for no map is a parser error.
pub open spec fn load_outcome(kvs_path: Seq<char>, hash_path: Seq<char>, files: FilesModel) -> Result<
    Map<Seq<char>, ValueModel>,
    ErrorCode,
> {
    if path_extension(kvs_path) != Some("json"@) {
        Err(ErrorCode::KvsFileReadError)
    } else if path_extension(hash_path) != Some("hash"@) {
        Err(ErrorCode::KvsHashFileReadError)
    } else {
        match files.payload {
            None => Err(ErrorCode::FileNotFound),
            Some(text) => if files.digest is Some && files.digest->Some_0 != digest_of(text) {
                Err(ErrorCode::ValidationFailed)
            } else {
                match json_parse_of(text) {
                    None => Err(ErrorCode::JsonParserError),
                    Some(document) => if files.digest is None {
                        Err(ErrorCode::FileNotFound)
                    } else {
                        match decode(document) {
                            ValueModel::Object(m) => Ok(m),
                            _ => Err(ErrorCode::JsonParserError),
                        }
                    },
                }
            },
        }
    }
}

/// The name of a snapshot payload file: `kvs_{instance}_{snapshot}.json`.
pub open spec fn kvs_name(instance_id: InstanceId, snapshot_id: SnapshotId) -> Seq<char> {
    "kvs_"@ + decimal(instance_id.0 as nat) + "_"@ + decimal(snapshot_id.0 as nat) + ".json"@
}

/// The name of a snapshot digest file: `kvs_{instance}_{snapshot}.hash`.
pub open spec fn hash_name(instance_id: InstanceId, snapshot_id: SnapshotId) -> Seq<char> {
    "kvs_"@ + decimal(instance_id.0 as nat) + "_"@ + decimal(snapshot_id.0 as nat) + ".hash"@
}

/// The name of the defaults payload file: `kvs_{instance}_default.json`.
pub open spec fn defaults_name(instance_id: InstanceId) -> Seq<char> {
    "kvs_"@ + decimal(instance_id.0 as nat) + "_default.json"@
}

/// The name of the defaults digest file: `kvs_{instance}_default.hash`.
pub open spec fn defaults_hash_name(instance_id: InstanceId) -> Seq<char> {
    "kvs_"@ + decimal(instance_id.0 as nat) + "_default.hash"@
}

/// Rotation from index `idx` down to 1 on the snapshot files: at each index, the files of the
/// snapshot below move up where both are there, nothing happens where neither is there, and
/// rotation stops as corrupted where one is there without the other. Gives the files after it
/// and whether it went through.
pub open spec fn rotate_from(slots: Seq<FilesModel>, idx: int) -> (Seq<FilesModel>, bool)
    decreases idx,
{
    if idx < 1 || idx >= slots.len() {
        (slots, true)
    } else if slots[idx - 1].is_full() {
        rotate_from(slots.update(idx, slots[idx - 1]).update(idx - 1, FilesModel::missing()), idx - 1)
    } else if slots[idx - 1].is_missing() {
        rotate_from(slots, idx - 1)
    } else {
        (slots, false)
    }
}

/// The first snapshot ID from `i` on whose payload is missing, or the number of slots.
pub open spec fn first_gap(slots: Seq<FilesModel>, i: int) -> int
    decreases slots.len() - i,
{
    if i < 0 || i >= slots.len() || slots[i].payload is None {
        i
    } else {
        first_gap(slots, i + 1)
    }
}

/// The backend's configuration.
pub ghost struct BackendModel {
    pub working_dir: Seq<char>,
    pub snapshot_max_count: usize,
}

/// Builder for `JsonBackend`.
#[derive(Debug)]
pub struct JsonBackendBuilder {
    working_dir: String,
    snapshot_max_count: usize,
}

impl View for JsonBackendBuilder {
    type V = BackendModel;

    closed spec fn view(&self) -> BackendModel {
        BackendModel {
            working_dir: self.working_dir@,
            snapshot_max_count: self.snapshot_max_count,
        }
    }
}

impl JsonBackendBuilder {
    /// A builder with the current directory as working directory and three snapshots.
    pub fn new() -> (r: Self)
        ensures
            r@.working_dir == Seq::<char>::empty(),
            r@.snapshot_max_count == 3,
    {
        Self { working_dir: String::new(), snapshot_max_count: 3 }
    }

    /// Sets the working directory.
    pub fn working_dir(self, working_dir: String) -> (r: Self)
        ensures
            r@.working_dir == working_dir@,
            r@.snapshot_max_count == self@.snapshot_max_count,
    {
        Self { working_dir, snapshot_max_count: self.snapshot_max_count }
    }

    /// Sets the maximum number of snapshots.
    pub fn snapshot_max_count(self, snapshot_max_count: usize) -> (r: Self)
        ensures
            r@.working_dir == self@.working_dir,
            r@.snapshot_max_count == snapshot_max_count,
    {
        Self { working_dir: self.working_dir, snapshot_max_count }
    }

    /// The backend with what was set.
    pub fn build(self) -> (r: JsonBackend)
        ensures
            r@ == self@,
    {
        JsonBackend { working_dir: self.working_dir, snapshot_max_count: self.snapshot_max_count }
    }
}

impl Default for JsonBackendBuilder {
    fn default() -> (r: Self)
        ensures
            r@.working_dir == Seq::<char>::empty(),
            r@.snapshot_max_count == 3,
    {
        Self::new()
    }
}

/// KVS backend that keeps snapshots as JSON files.
#[derive(Debug)]
pub struct JsonBackend {
    working_dir: String,
    snapshot_max_count: usize,
}

impl View for JsonBackend {
    type V = BackendModel;

    closed spec fn view(&self) -> BackendModel {
        BackendModel {
            working_dir: self.working_dir@,
            snapshot_max_count: self.snapshot_max_count,
        }
    }
}

impl Clone for JsonBackend {
    fn clone(&self) -> (r: Self)
        ensures
            r@ == self@,
    {
        JsonBackend {
            working_dir: self.working_dir.clone(),
            snapshot_max_count: self.snapshot_max_count,
        }
    }
}

impl JsonBackend {
    /// The working directory.
    pub fn directory(&self) -> (r: &str)
        ensures
            r@ == self@.working_dir,
    {
        self.working_dir.as_str()
    }

    /// Reads a JSON text.
    pub fn parse(text: &str) -> (r: Result<JsonNode, ErrorCode>)
        ensures
            match json_parse_of(text@) {
                Some(document) => r is Ok && r->Ok_0@ == document && r->Ok_0.wf(),
                None => r == Err::<JsonNode, ErrorCode>(ErrorCode::JsonParserError),
            },
    {
        JsonNode::parse(text)
    }

    /// Check path have correct extension.
    pub fn check_extension(path: &str, extension: &str) -> (r: bool)
        ensures
            r == (path_extension(path@) == Some(extension@)),
    {
        check_extension(path, extension)
    }

    /// Loads a map from a payload and its digest.
    pub fn load(kvs_path: &str, hash_path: &str, files: &SnapshotFiles) -> (r: Result<
        KvsMap,
        ErrorCode,
    >)
        ensures
            is_outcome(r, load_outcome(kvs_path@, hash_path@, files@)),
    {
        if !check_extension(kvs_path, "json") {
            return Err(ErrorCode::KvsFileReadError);
        }
        if !check_extension(hash_path, "hash") {
            return Err(ErrorCode::KvsHashFileReadError);
        }
        let text = match &files.payload {
            Some(text) => text,
            None => {
                return Err(ErrorCode::FileNotFound);
            },
        };
        match &files.digest {
            Some(digest) => {
                if !matches_digest(text.as_str(), digest) {
                    return Err(ErrorCode::ValidationFailed);
                }
            },
            None => {},
        }
        let document = match JsonNode::parse(text.as_str()) {
            Ok(document) => document,
            Err(e) => {
                return Err(ErrorCode::JsonParserError);
            },
        };
        if files.digest.is_none() {
            return Err(ErrorCode::FileNotFound);
        }
        match KvsValue::from_node(&document) {
            KvsValue::Object(map) => {
                proof {
                    crate::kvs_value::lemma_object_model(map);
                }
                Ok(map)
            },
            _ => Err(ErrorCode::JsonParserError),
        }
    }

    /// The document to write for a map: an object that holds each value wrapped, under its
    /// key. The paths are checked as on loading.
    pub fn save(kvs_map: &KvsMap, kvs_path: &str, hash_path: &str) -> (r: Result<
        JsonNode,
        ErrorCode,
    >)
        ensures
            match r {
                Ok(document) => {
                    &&& path_extension(kvs_path@) == Some("json"@)
                    &&& path_extension(hash_path@) == Some("hash"@)
                    &&& document@ == JsonModel::Object(encode_map(kvs_map@))
                    &&& document.wf()
                },
                Err(e) => if path_extension(kvs_path@) != Some("json"@) {
                    e == ErrorCode::KvsFileReadError
                } else {
                    path_extension(hash_path@) != Some("hash"@) && e
                        == ErrorCode::KvsHashFileReadError
                },
            },
    {
        if !check_extension(kvs_path, "json") {
            return Err(ErrorCode::KvsFileReadError);
        }
        if !check_extension(hash_path, "hash") {
            return Err(ErrorCode::KvsHashFileReadError);
        }
        let object = JsonObject::from_map(kvs_map);
        proof {
            lemma_node_object(object);
        }
        Ok(JsonNode::Object(object))
    }

    /// Get KVS file name.
    pub fn kvs_file_name(instance_id: InstanceId, snapshot_id: SnapshotId) -> (r: String)
        ensures
            r@ == kvs_name(instance_id, snapshot_id),
    {
        let mut name = String::from_str("kvs_");
        name.append(decimal_text(instance_id.0).as_str());
        name.append("_");
        name.append(decimal_text(snapshot_id.0).as_str());
        name.append(".json");
        name
    }

    /// Get KVS file path in working directory.
    pub fn kvs_file_path(&self, instance_id: InstanceId, snapshot_id: SnapshotId) -> (r: String)
        ensures
            r@ == join_path(self@.working_dir, kvs_name(instance_id, snapshot_id)),
    {
        join(self.working_dir.as_str(), Self::kvs_file_name(instance_id, snapshot_id).as_str())
    }

    /// Get hash file name.
    pub fn hash_file_name(instance_id: InstanceId, snapshot_id: SnapshotId) -> (r: String)
        ensures
            r@ == hash_name(instance_id, snapshot_id),
    {
        let mut name = String::from_str("kvs_");
        name.append(decimal_text(instance_id.0).as_str());
        name.append("_");
        name.append(decimal_text(snapshot_id.0).as_str());
        name.append(".hash");
        name
    }

    /// Get hash file path in working directory.
    pub fn hash_file_path(&self, instance_id: InstanceId, snapshot_id: SnapshotId) -> (r: String)
        ensures
            r@ == join_path(self@.working_dir, hash_name(instance_id, snapshot_id)),
    {
        join(self.working_dir.as_str(), Self::hash_file_name(instance_id, snapshot_id).as_str())
    }

    /// Get defaults file name.
    pub fn defaults_file_name(instance_id: InstanceId) -> (r: String)
        ensures
            r@ == defaults_name(instance_id),
    {
        let mut name = String::from_str("kvs_");
        name.append(decimal_text(instance_id.0).as_str());
        name.append("_default.json");
        name
    }

    /// Get defaults file path in working directory.
    pub fn defaults_file_path(&self, instance_id: InstanceId) -> (r: String)
        ensures
            r@ == join_path(self@.working_dir, defaults_name(instance_id)),
    {
        join(self.working_dir.as_str(), Self::defaults_file_name(instance_id).as_str())
    }

    /// Get defaults hash file name.
    pub fn defaults_hash_file_name(instance_id: InstanceId) -> (r: String)
        ensures
            r@ == defaults_hash_name(instance_id),
    {
        let mut name = String::from_str("kvs_");
        name.append(decimal_text(instance_id.0).as_str());
        name.append("_default.hash");
        name
    }

    /// Get defaults hash file path in working directory.
    pub fn defaults_hash_file_path(&self, instance_id: InstanceId) -> (r: String)
        ensures
            r@ == join_path(self@.working_dir, defaults_hash_name(instance_id)),
    {
        join(self.working_dir.as_str(), Self::defaults_hash_file_name(instance_id).as_str())
    }

    /// What loading a snapshot from a working directory gives; a snapshot ID for which the
    /// files have no slot is not found.
    pub open spec fn load_kvs_model(
        working_dir: Seq<char>,
        slots: Seq<FilesModel>,
        instance_id: InstanceId,
        snapshot_id: SnapshotId,
    ) -> Result<Map<Seq<char>, ValueModel>, ErrorCode> {
        load_outcome(
            join_path(working_dir, kvs_name(instance_id, snapshot_id)),
            join_path(working_dir, hash_name(instance_id, snapshot_id)),
            if snapshot_id.0 < slots.len() {
                slots[snapshot_id.0 as int]
            } else {
                FilesModel::missing()
            },
        )
    }

    /// What loading a snapshot with this backend gives.
    pub open spec fn load_kvs_outcome(
        self,
        slots: Seq<FilesModel>,
        instance_id: InstanceId,
        snapshot_id: SnapshotId,
    ) -> Result<Map<Seq<char>, ValueModel>, ErrorCode> {
        Self::load_kvs_model(self@.working_dir, slots, instance_id, snapshot_id)
    }

    /// Rotate snapshots: from the highest snapshot ID down, each snapshot takes the files of
    /// the one below it. A snapshot of which only one file is there stops the rotation with
    /// `IntegrityCorrupted`; what was moved before stays moved.
    pub fn snapshot_rotate(&self, files: &mut InstanceFiles) -> (r: Result<(), ErrorCode>)
        requires
            old(files).snapshots@.len() == self@.snapshot_max_count,
        ensures
            final(files).defaults == old(files).defaults,
            final(files).snapshots@.len() == old(files).snapshots@.len(),
            final(files).slots() == rotate_from(
                old(files).slots(),
                self@.snapshot_max_count - 1,
            ).0,
            rotate_from(old(files).slots(), self@.snapshot_max_count - 1).1 ==> r is Ok,
            !rotate_from(old(files).slots(), self@.snapshot_max_count - 1).1 ==> r == Err::<
                (),
                ErrorCode,
            >(ErrorCode::IntegrityCorrupted),
    {
        if self.snapshot_max_count == 0 {
            return Ok(());
        }
        let mut idx: usize = self.snapshot_max_count - 1;
        while idx >= 1
            invariant
                idx < self.snapshot_max_count,
                files.snapshots@.len() == self.snapshot_max_count,
                old(files).snapshots@.len() == self.snapshot_max_count,
                files.defaults == old(files).defaults,
                rotate_from(old(files).slots(), self.snapshot_max_count - 1) == rotate_from(
                    files.slots(),
                    idx as int,
                ),
            decreases idx,
        {
            let ghost before = files.slots();
            let payload_exists = files.snapshots[idx - 1].payload.is_some();
            let digest_exists = files.snapshots[idx - 1].digest.is_some();
            if payload_exists && digest_exists {
                let moved = files.snapshots[idx - 1].duplicate();
                files.snapshots.set(idx, moved);
                files.snapshots.set(idx - 1, SnapshotFiles::missing());
                assert(files.slots() =~= before.update(idx as int, before[idx - 1]).update(
                    idx - 1,
                    FilesModel::missing(),
                ));
            } else if !payload_exists && !digest_exists {
            } else {
                return Err(ErrorCode::IntegrityCorrupted);
            }
            idx = idx - 1;
        }
        Ok(())
    }

    /// The snapshot files after a flush that went through: rotated, with the payload and its
    /// digest as snapshot 0.
    pub open spec fn flushed(slots: Seq<FilesModel>, payload: Seq<char>) -> Seq<FilesModel> {
        rotate_from(slots, slots.len() - 1).0.update(
            0,
            FilesModel { payload: Some(payload), digest: Some(digest_of(payload)) },
        )
    }
}

impl DynEq for JsonBackend {
    /// Two JSON backends are configured alike where they have the same working directory and
    /// the same maximum number of snapshots.
    open spec fn same_configuration(&self, other: &Self) -> bool {
        self@ == other@
    }

    fn dyn_eq(&self, other: &Self) -> (r: bool) {
        self.working_dir == other.working_dir && self.snapshot_max_count
            == other.snapshot_max_count
    }
}

impl KvsBackend for JsonBackend {
    type Storage = InstanceFiles;

    /// The files have one slot for each snapshot ID below the maximum.
    open spec fn fits(&self, storage: &InstanceFiles) -> bool {
        storage.snapshots@.len() == self@.snapshot_max_count
    }

    open spec fn max_count(&self) -> usize {
        self@.snapshot_max_count
    }

    /// The first snapshot ID whose payload file is missing.
    open spec fn count(&self, storage: &InstanceFiles) -> int {
        first_gap(storage.slots(), 0)
    }

    open spec fn kvs_outcome(
        &self,
        storage: &InstanceFiles,
        instance_id: InstanceId,
        snapshot_id: SnapshotId,
    ) -> Result<Map<Seq<char>, ValueModel>, ErrorCode> {
        self.load_kvs_outcome(storage.slots(), instance_id, snapshot_id)
    }

    open spec fn defaults_outcome(&self, storage: &InstanceFiles, instance_id: InstanceId) -> Result<
        Map<Seq<char>, ValueModel>,
        ErrorCode,
    > {
        load_outcome(
            join_path(self@.working_dir, defaults_name(instance_id)),
            join_path(self@.working_dir, defaults_hash_name(instance_id)),
            storage.defaults@,
        )
    }

    /// A flush goes through where the rotation does.
    open spec fn can_flush(&self, storage: &InstanceFiles) -> bool {
        rotate_from(storage.slots(), self@.snapshot_max_count - 1).1
    }

    /// A flush fails as corrupted, and leaves the snapshots as far as they were rotated.
    open spec fn fails_to(&self, before: &InstanceFiles, after: &InstanceFiles, error: ErrorCode) -> bool {
        &&& error == ErrorCode::IntegrityCorrupted
        &&& after.defaults == before.defaults
        &&& after.slots() == rotate_from(before.slots(), self@.snapshot_max_count - 1).0
    }

    /// The defaults stay; the snapshots are rotated and the payload with its digest is
    /// snapshot 0, or, with no room for snapshots, nothing changes.
    open spec fn flushes_to(
        &self,
        before: &InstanceFiles,
        payload: Seq<char>,
        after: &InstanceFiles,
    ) -> bool {
        &&& after.defaults == before.defaults
        &&& after.slots() == if self@.snapshot_max_count == 0 {
            before.slots()
        } else {
            Self::flushed(before.slots(), payload)
        }
    }

    /// Load KVS content.
    fn load_kvs(
        &self,
        files: &InstanceFiles,
        instance_id: InstanceId,
        snapshot_id: SnapshotId,
    ) -> (r: Result<KvsMap, ErrorCode>)
        ensures
            is_outcome(r, self.load_kvs_outcome(files.slots(), instance_id, snapshot_id)),
    {
        let kvs_path = self.kvs_file_path(instance_id, snapshot_id);
        let hash_path = self.hash_file_path(instance_id, snapshot_id);
        if snapshot_id.0 < files.snapshots.len() {
            Self::load(kvs_path.as_str(), hash_path.as_str(), &files.snapshots[snapshot_id.0])
        } else {
            let none = SnapshotFiles::missing();
            Self::load(kvs_path.as_str(), hash_path.as_str(), &none)
        }
    }

    /// Load default values.
    fn load_defaults(&self, files: &InstanceFiles, instance_id: InstanceId) -> (r: Result<
        KvsMap,
        ErrorCode,
    >)
        ensures
            is_outcome(
                r,
                load_outcome(
                    join_path(self@.working_dir, defaults_name(instance_id)),
                    join_path(self@.working_dir, defaults_hash_name(instance_id)),
                    files.defaults@,
                ),
            ),
    {
        let defaults_path = self.defaults_file_path(instance_id);
        let defaults_hash_path = self.defaults_hash_file_path(instance_id);
        Self::load(defaults_path.as_str(), defaults_hash_path.as_str(), &files.defaults)
    }

    /// Flush a payload to storage: snapshots are rotated and the payload is stored with its
    /// digest as snapshot 0. With no room for snapshots nothing is stored.
    fn flush(&self, files: &mut InstanceFiles, payload: &str) -> (r: Result<(), ErrorCode>)
        ensures
            final(files).defaults == old(files).defaults,
            final(files).slots().len() == old(files).slots().len(),
            rotate_from(old(files).slots(), self@.snapshot_max_count - 1).1 ==> r is Ok,
            !rotate_from(old(files).slots(), self@.snapshot_max_count - 1).1 ==> r == Err::<
                (),
                ErrorCode,
            >(ErrorCode::IntegrityCorrupted),
            r is Ok && self@.snapshot_max_count > 0 ==> final(files).slots() == Self::flushed(
                old(files).slots(),
                payload@,
            ),
            r is Ok && self@.snapshot_max_count == 0 ==> final(files).slots() == old(
                files,
            ).slots(),
            r is Err ==> final(files).slots() == rotate_from(
                old(files).slots(),
                self@.snapshot_max_count - 1,
            ).0,
    {
        match self.snapshot_rotate(files) {
            Ok(()) => {},
            Err(e) => {
                return Err(ErrorCode::IntegrityCorrupted);
            },
        }
        if self.snapshot_max_count == 0 {
            return Ok(());
        }
        let ghost rotated = files.slots();
        let digest = seal(payload);
        let written = SnapshotFiles { payload: Some(payload.to_owned()), digest: Some(digest) };
        files.snapshots.set(0, written);
        assert(files.slots() =~= rotated.update(
            0,
            FilesModel { payload: Some(payload@), digest: Some(digest_of(payload@)) },
        ));
        Ok(())
    }

    /// Count available snapshots: the first snapshot ID whose payload file is missing.
    fn snapshot_count(&self, files: &InstanceFiles) -> (r: usize)
        ensures
            r == first_gap(files.slots(), 0),
            r <= self@.snapshot_max_count,
    {
        let mut count: usize = 0;
        while count < self.snapshot_max_count && files.snapshots[count].payload.is_some()
            invariant
                count <= self.snapshot_max_count,
                files.snapshots@.len() == self.snapshot_max_count,
                first_gap(files.slots(), 0) == first_gap(files.slots(), count as int),
            decreases self.snapshot_max_count - count,
        {
            count = count + 1;
        }
        count
    }

    /// Max number of snapshots.
    fn snapshot_max_count(&self) -> (r: usize)
        ensures
            r == self@.snapshot_max_count,
    {
        self.snapshot_max_count
    }

    /// Restore snapshot with given ID: snapshot 0 and every ID from the number of snapshots on
    /// are invalid; any other is loaded.
    fn snapshot_restore(
        &self,
        files: &InstanceFiles,
        instance_id: InstanceId,
        snapshot_id: SnapshotId,
    ) -> (r: Result<KvsMap, ErrorCode>)
        ensures
            snapshot_id.0 == 0 || snapshot_id.0 >= first_gap(files.slots(), 0) ==> r is Err
                && r->Err_0 == ErrorCode::InvalidSnapshotId,
            0 < snapshot_id.0 < first_gap(files.slots(), 0) ==> is_outcome(
                r,
                self.load_kvs_outcome(files.slots(), instance_id, snapshot_id),
            ),
    {
        if snapshot_id.0 == 0 {
            return Err(ErrorCode::InvalidSnapshotId);
        }
        if snapshot_id.0 >= self.snapshot_count(files) {
            return Err(ErrorCode::InvalidSnapshotId);
        }
        self.load_kvs(files, instance_id, snapshot_id)
    }
}


/// The snapshots form a prefix of length `k`: both files of each snapshot below `k` are there,
/// and no file of a snapshot from `k` on.
pub open spec fn is_prefix(slots: Seq<FilesModel>, k: int) -> bool {
    &&& 0 <= k <= slots.len()
    &&& forall|i: int| 0 <= i < k ==> (#[trigger] slots[i]).is_full()
    &&& forall|i: int| k <= i < slots.len() ==> (#[trigger] slots[i]).is_missing()
}

/// The least of two numbers.
pub open spec fn least(a: int, b: int) -> int {
    if a < b {
        a
    } else {
        b
    }
}

/// The snapshot files after one flush for each payload, in their order.
pub open spec fn flushes(slots: Seq<FilesModel>, payloads: Seq<Seq<char>>) -> Seq<FilesModel>
    decreases payloads.len(),
{
    if payloads.len() == 0 {
        slots
    } else {
        JsonBackend::flushed(flushes(slots, payloads.drop_last()), payloads.last())
    }
}

/// Rotation from `idx` down on files that are a prefix of length `k` up to `idx`: it goes
/// through, each snapshot up to `k` gets the files of the one below it, snapshot 0 is left
/// without files, and nothing else changes.
proof fn lemma_rotate(slots: Seq<FilesModel>, idx: int, k: int)
    requires
        0 <= idx < slots.len(),
        0 <= k <= idx + 1,
        forall|i: int| 0 <= i < k ==> (#[trigger] slots[i]).is_full(),
        forall|i: int| k <= i <= idx ==> (#[trigger] slots[i]).is_missing(),
    ensures
        rotate_from(slots, idx).1,
        rotate_from(slots, idx).0.len() == slots.len(),
        forall|i: int|
            idx < i < slots.len() ==> #[trigger] rotate_from(slots, idx).0[i] == slots[i],
        forall|i: int|
            1 <= i <= idx ==> #[trigger] rotate_from(slots, idx).0[i] == if i <= k {
                slots[i - 1]
            } else {
                slots[i]
            },
        rotate_from(slots, idx).0[0] == if idx >= 1 && k >= 1 {
            FilesModel::missing()
        } else {
            slots[0]
        },
    decreases idx,
{
    if idx >= 1 {
        let result = rotate_from(slots, idx).0;
        if k >= idx {
            assert(slots[idx - 1].is_full());
            let next = slots.update(idx, slots[idx - 1]).update(idx - 1, FilesModel::missing());
            assert forall|i: int| 0 <= i < idx - 1 implies (#[trigger] next[i]).is_full() by {
                assert(slots[i].is_full());
            }
            lemma_rotate(next, idx - 1, idx - 1);
            assert(rotate_from(slots, idx) == rotate_from(next, idx - 1));
            assert forall|i: int| idx < i < slots.len() implies result[i] == slots[i] by {
                assert(result[i] == next[i]);
            }
            assert forall|i: int| 1 <= i <= idx implies #[trigger] result[i] == if i <= k {
                slots[i - 1]
            } else {
                slots[i]
            } by {
                if i == idx {
                    assert(result[i] == next[i]);
                } else {
                    assert(result[i] == next[i - 1]);
                }
            }
        } else {
            assert(slots[idx - 1].is_missing());
            lemma_rotate(slots, idx - 1, k);
            assert(rotate_from(slots, idx) == rotate_from(slots, idx - 1));
            assert forall|i: int| idx < i < slots.len() implies result[i] == slots[i] by {
            }
            assert(slots[idx].is_missing());
            assert forall|i: int| 1 <= i <= idx implies #[trigger] result[i] == if i <= k {
                slots[i - 1]
            } else {
                slots[i]
            } by {
            }
        }
    }
}

/// A flush on a prefix of snapshots goes through and leaves a prefix that is one longer, up
/// to the number of slots: the payload with its digest is snapshot 0, and each older snapshot
/// holds what the one below it held before.
pub proof fn lemma_flush_on_prefix(slots: Seq<FilesModel>, k: int, payload: Seq<char>)
    requires
        slots.len() >= 1,
        is_prefix(slots, k),
    ensures
        rotate_from(slots, slots.len() - 1).1,
        is_prefix(JsonBackend::flushed(slots, payload), least(k + 1, slots.len() as int)),
        JsonBackend::flushed(slots, payload).len() == slots.len(),
        JsonBackend::flushed(slots, payload)[0] == (FilesModel {
            payload: Some(payload),
            digest: Some(digest_of(payload)),
        }),
        forall|i: int|
            1 <= i < least(k + 1, slots.len() as int) ==> #[trigger] JsonBackend::flushed(
                slots,
                payload,
            )[i] == slots[i - 1],
{
    let idx = slots.len() - 1;
    lemma_rotate(slots, idx, k);
    let after = JsonBackend::flushed(slots, payload);
    let rotated = rotate_from(slots, idx).0;
    assert forall|i: int| 0 <= i < least(k + 1, slots.len() as int) implies (
    #[trigger] after[i]).is_full() by {
        if i >= 1 {
            assert(rotated[i] == slots[i - 1]);
            assert(slots[i - 1].is_full());
        }
    }
    assert forall|i: int| least(k + 1, slots.len() as int) <= i < after.len() implies (
    #[trigger] after[i]).is_missing() by {
        assert(rotated[i] == slots[i]);
        assert(slots[i].is_missing());
    }
    assert forall|i: int| 1 <= i < least(k + 1, slots.len() as int) implies #[trigger] after[i]
        == slots[i - 1] by {
        assert(rotated[i] == slots[i - 1]);
    }
}

/// On a prefix of snapshots of length `k` the snapshot count is `k`.
pub proof fn lemma_count_of_prefix(slots: Seq<FilesModel>, k: int)
    requires
        is_prefix(slots, k),
    ensures
        first_gap(slots, 0) == k,
{
    lemma_gap_from(slots, k, 0);
}

proof fn lemma_gap_from(slots: Seq<FilesModel>, k: int, i: int)
    requires
        is_prefix(slots, k),
        0 <= i <= k,
    ensures
        first_gap(slots, i) == k,
    decreases k - i,
{
    if i < k {
        assert(slots[i].is_full());
        lemma_gap_from(slots, k, i + 1);
    } else if i < slots.len() {
        assert(slots[i].is_missing());
    }
}

/// After any number of flushes on an instance that had no snapshot, the snapshots are a prefix:
/// their count is the number of flushes, up to the number of slots.
pub proof fn lemma_count_after_flushes(slots: Seq<FilesModel>, payloads: Seq<Seq<char>>)
    requires
        slots.len() >= 1,
        is_prefix(slots, 0),
    ensures
        flushes(slots, payloads).len() == slots.len(),
        is_prefix(flushes(slots, payloads), least(payloads.len() as int, slots.len() as int)),
        first_gap(flushes(slots, payloads), 0) == least(
            payloads.len() as int,
            slots.len() as int,
        ),
    decreases payloads.len(),
{
    if payloads.len() > 0 {
        let earlier = payloads.drop_last();
        lemma_count_after_flushes(slots, earlier);
        lemma_flush_on_prefix(
            flushes(slots, earlier),
            least(earlier.len() as int, slots.len() as int),
            payloads.last(),
        );
    }
    lemma_count_of_prefix(
        flushes(slots, payloads),
        least(payloads.len() as int, slots.len() as int),
    );
}

/// Loading reads what was saved: where the payload is a JSON text of the snapshot document of
/// a map and the digest is the one of the payload, loading gives the map. The map must hold
/// nothing under `"t"` and `"v"`, and its values must be exact.
pub proof fn lemma_load_reads_saved(
    kvs_path: Seq<char>,
    hash_path: Seq<char>,
    payload: Seq<char>,
    m: Map<Seq<char>, ValueModel>,
)
    requires
        path_extension(kvs_path) == Some("json"@),
        path_extension(hash_path) == Some("hash"@),
        m.dom().finite(),
        forall|k: Seq<char>| m.dom().contains(k) ==> exact(#[trigger] m[k]),
        !m.dom().contains(tag_key()),
        !m.dom().contains(payload_key()),
    ensures
        json_parse_of(payload) == Some(JsonModel::Object(encode_map(m))) ==> load_outcome(
            kvs_path,
            hash_path,
            FilesModel { payload: Some(payload), digest: Some(digest_of(payload)) },
        ) == Ok::<Map<Seq<char>, ValueModel>, ErrorCode>(m),
{
    lemma_snapshot_round_trip(m);
}

/// Loading rejects what does not belong together: whatever the payload text is, a digest other
/// than the one of the text fails validation; and a missing digest beside a payload that
/// parses is not found.
pub proof fn lemma_load_rejects(
    kvs_path: Seq<char>,
    hash_path: Seq<char>,
    payload: Seq<char>,
    digest: Seq<u8>,
)
    requires
        path_extension(kvs_path) == Some("json"@),
        path_extension(hash_path) == Some("hash"@),
    ensures
        digest != digest_of(payload) ==> load_outcome(
            kvs_path,
            hash_path,
            FilesModel { payload: Some(payload), digest: Some(digest) },
        ) == Err::<Map<Seq<char>, ValueModel>, ErrorCode>(ErrorCode::ValidationFailed),
        json_parse_of(payload) is Some ==> load_outcome(
            kvs_path,
            hash_path,
            FilesModel { payload: Some(payload), digest: None },
        ) == Err::<Map<Seq<char>, ValueModel>, ErrorCode>(ErrorCode::FileNotFound),
{
}

/// A changed byte is always seen. Where the bytes of the payload text are those of the text
/// that the digest was made of with one byte replaced by another, loading fails validation;
/// and so it does where one byte of the digest was replaced by another.
pub proof fn lemma_changed_byte_fails_validation(
    kvs_path: Seq<char>,
    hash_path: Seq<char>,
    saved: Seq<char>,
    changed: Seq<char>,
    i: int,
    byte: u8,
)
    requires
        path_extension(kvs_path) == Some("json"@),
        path_extension(hash_path) == Some("hash"@),
    ensures
        0 <= i < encode_utf8(saved).len() && byte != encode_utf8(saved)[i] && encode_utf8(changed)
            == encode_utf8(saved).update(i, byte) ==> load_outcome(
            kvs_path,
            hash_path,
            FilesModel { payload: Some(changed), digest: Some(digest_of(saved)) },
        ) == Err::<Map<Seq<char>, ValueModel>, ErrorCode>(ErrorCode::ValidationFailed),
        0 <= i < digest_of(saved).len() && byte != digest_of(saved)[i] ==> load_outcome(
            kvs_path,
            hash_path,
            FilesModel { payload: Some(saved), digest: Some(digest_of(saved).update(i, byte)) },
        ) == Err::<Map<Seq<char>, ValueModel>, ErrorCode>(ErrorCode::ValidationFailed),
{
    if 0 <= i < encode_utf8(saved).len() && byte != encode_utf8(saved)[i] && encode_utf8(changed)
        == encode_utf8(saved).update(i, byte) {
        lemma_one_byte_changes_checksum(encode_utf8(saved), i, byte);
    }
    if 0 <= i < digest_of(saved).len() && byte != digest_of(saved)[i] {
        assert(digest_of(saved).update(i, byte)[i] != digest_of(saved)[i]);
    }
}

/// The paths that the backend makes have the extensions that loading asks for: `json` for a
/// payload, `hash` for a digest.
pub proof fn lemma_path_extensions(dir: Seq<char>, instance_id: InstanceId, snapshot_id: SnapshotId)
    ensures
        path_extension(join_path(dir, kvs_name(instance_id, snapshot_id))) == Some("json"@),
        path_extension(join_path(dir, hash_name(instance_id, snapshot_id))) == Some("hash"@),
        path_extension(join_path(dir, defaults_name(instance_id))) == Some("json"@),
        path_extension(join_path(dir, defaults_hash_name(instance_id))) == Some("hash"@),
{
    reveal_strlit("json");
    reveal_strlit("hash");
    reveal_strlit(".json");
    reveal_strlit(".hash");
    reveal_strlit("_default.json");
    reveal_strlit("_default.hash");
    reveal_strlit("_default");
    lemma_decimal_end(snapshot_id.0 as nat);
    let snapshot_stem = "kvs_"@ + decimal(instance_id.0 as nat) + "_"@ + decimal(
        snapshot_id.0 as nat,
    );
    let defaults_stem = "kvs_"@ + decimal(instance_id.0 as nat) + "_default"@;
    assert(snapshot_stem.last() == decimal(snapshot_id.0 as nat).last());
    assert(defaults_stem.last() == 't');
    assert(kvs_name(instance_id, snapshot_id) =~= snapshot_stem + seq!['.'] + "json"@);
    assert(hash_name(instance_id, snapshot_id) =~= snapshot_stem + seq!['.'] + "hash"@);
    assert(defaults_name(instance_id) =~= defaults_stem + seq!['.'] + "json"@);
    assert(defaults_hash_name(instance_id) =~= defaults_stem + seq!['.'] + "hash"@);
    lemma_joined_extension(dir, snapshot_stem, "json"@);
    lemma_joined_extension(dir, snapshot_stem, "hash"@);
    lemma_joined_extension(dir, defaults_stem, "json"@);
    lemma_joined_extension(dir, defaults_stem, "hash"@);
}

/// Rotation keeps the number of slots.
pub proof fn lemma_rotate_len(slots: Seq<FilesModel>, idx: int)
    ensures
        rotate_from(slots, idx).0.len() == slots.len(),
    decreases idx,
{
    if 1 <= idx < slots.len() {
        if slots[idx - 1].is_full() {
            lemma_rotate_len(
                slots.update(idx, slots[idx - 1]).update(idx - 1, FilesModel::missing()),
                idx - 1,
            );
        } else if slots[idx - 1].is_missing() {
            lemma_rotate_len(slots, idx - 1);
        }
    }
}

/// A flush followed by a load of snapshot 0 gives the map that was flushed: where the payload
/// is a JSON text of the snapshot document of the map, the load gives the map. The map must
/// hold nothing under `"t"` and `"v"`, and its values must be exact.
pub proof fn lemma_flush_then_load(
    dir: Seq<char>,
    slots: Seq<FilesModel>,
    instance_id: InstanceId,
    payload: Seq<char>,
    m: Map<Seq<char>, ValueModel>,
)
    requires
        slots.len() >= 1,
        m.dom().finite(),
        forall|k: Seq<char>| m.dom().contains(k) ==> exact(#[trigger] m[k]),
        !m.dom().contains(tag_key()),
        !m.dom().contains(payload_key()),
    ensures
        json_parse_of(payload) == Some(JsonModel::Object(encode_map(m)))
            ==> JsonBackend::load_kvs_model(
            dir,
            JsonBackend::flushed(slots, payload),
            instance_id,
            SnapshotId(0),
        ) == Ok::<Map<Seq<char>, ValueModel>, ErrorCode>(m),
{
    lemma_rotate_len(slots, slots.len() - 1);
    lemma_path_extensions(dir, instance_id, SnapshotId(0));
    lemma_load_reads_saved(
        join_path(dir, kvs_name(instance_id, SnapshotId(0))),
        join_path(dir, hash_name(instance_id, SnapshotId(0))),
        payload,
        m,
    );
}

/// A flush keeps the history: on a prefix of snapshots, loading snapshot `i` after the flush
/// gives what loading snapshot `i - 1` gave before it, for each `i` from 1 up to the new count.
pub proof fn lemma_flush_keeps_history(
    dir: Seq<char>,
    slots: Seq<FilesModel>,
    k: int,
    instance_id: InstanceId,
    payload: Seq<char>,
    i: int,
)
    requires
        slots.len() >= 1,
        is_prefix(slots, k),
        1 <= i < least(k + 1, slots.len() as int),
        i <= usize::MAX,
    ensures
        JsonBackend::load_kvs_model(
            dir,
            JsonBackend::flushed(slots, payload),
            instance_id,
            SnapshotId(i as usize),
        ) == JsonBackend::load_kvs_model(dir, slots, instance_id, SnapshotId((i - 1) as usize)),
{
    lemma_flush_on_prefix(slots, k, payload);
    lemma_path_extensions(dir, instance_id, SnapshotId(i as usize));
    lemma_path_extensions(dir, instance_id, SnapshotId((i - 1) as usize));
    assert(JsonBackend::flushed(slots, payload)[i] == slots[i - 1]);
}

/// The history after flushes: on an instance that had no snapshot, after one flush for each
/// payload, snapshot `i` holds the payload of the flush that came `i` flushes before the last,
/// with its digest, for each `i` below the snapshot count.
pub proof fn lemma_history_after_flushes(
    slots: Seq<FilesModel>,
    payloads: Seq<Seq<char>>,
    i: int,
)
    requires
        slots.len() >= 1,
        is_prefix(slots, 0),
        0 <= i < least(payloads.len() as int, slots.len() as int),
    ensures
        flushes(slots, payloads)[i] == (FilesModel {
            payload: Some(payloads[payloads.len() - 1 - i]),
            digest: Some(digest_of(payloads[payloads.len() - 1 - i])),
        }),
    decreases payloads.len(),
{
    let earlier = payloads.drop_last();
    let before = flushes(slots, earlier);
    lemma_count_after_flushes(slots, earlier);
    lemma_flush_on_prefix(before, least(earlier.len() as int, slots.len() as int), payloads.last());
    if i > 0 {
        lemma_history_after_flushes(slots, earlier, i - 1);
        assert(flushes(slots, payloads)[i] == before[i - 1]);
        assert(earlier[earlier.len() - 1 - (i - 1)] == payloads[payloads.len() - 1 - i]);
    }
}

/// Whether the payload file and the digest file of a snapshot are there.
#[derive(Clone, Copy, Debug, PartialEq, Eq, Structural)]
pub struct SnapshotPresence {
    /// Whether the payload file is there.
    pub payload: bool,
    /// Whether the digest file is there.
    pub digest: bool,
}

/// What a rotation does to the files in storage.
#[derive(Debug)]
pub struct RotationPlan {
    /// The snapshot IDs whose two files move up to the next ID, in the order of the moves.
    pub moves: Vec<usize>,
    /// Whether the rotation goes through; one that does not stops after the moves, as
    /// corrupted.
    pub complete: bool,
}

/// Which files of a snapshot are there.
pub open spec fn presence_of(files: FilesModel) -> SnapshotPresence {
    SnapshotPresence { payload: files.payload is Some, digest: files.digest is Some }
}

/// The snapshot IDs that a rotation from index `idx` down to 1 moves up by one, in the order
/// of the moves, given which files are there: the snapshot below each index moves where both
/// its files are there, and the rotation stops where one is there without the other.
pub open spec fn planned_moves(present: Seq<SnapshotPresence>, idx: int) -> Seq<usize>
    decreases idx,
{
    if idx < 1 || idx >= present.len() {
        Seq::empty()
    } else if present[idx - 1].payload && present[idx - 1].digest {
        seq![(idx - 1) as usize] + planned_moves(present, idx - 1)
    } else if !present[idx - 1].payload && !present[idx - 1].digest {
        planned_moves(present, idx - 1)
    } else {
        Seq::empty()
    }
}

/// Whether a rotation from index `idx` down to 1 goes through, given which files are there.
pub open spec fn plan_completes(present: Seq<SnapshotPresence>, idx: int) -> bool
    decreases idx,
{
    if idx < 1 || idx >= present.len() {
        true
    } else if present[idx - 1].payload == present[idx - 1].digest {
        plan_completes(present, idx - 1)
    } else {
        false
    }
}

/// The snapshot files after the moves, each of which puts the files of a snapshot in the
/// place of those of the next and leaves the snapshot itself without files.
pub open spec fn after_moves(slots: Seq<FilesModel>, moves: Seq<usize>) -> Seq<FilesModel>
    decreases moves.len(),
{
    if moves.len() == 0 {
        slots
    } else {
        after_moves(
            slots.update(moves[0] + 1, slots[moves[0] as int]).update(
                moves[0] as int,
                FilesModel::missing(),
            ),
            moves.drop_first(),
        )
    }
}

impl JsonBackend {
    /// What a rotation does, given for each snapshot ID below the maximum which of its files
    /// are there.
    pub fn rotation_plan(&self, present: &Vec<SnapshotPresence>) -> (r: RotationPlan)
        requires
            present@.len() == self@.snapshot_max_count,
        ensures
            r.moves@ == planned_moves(present@, self@.snapshot_max_count - 1),
            r.complete == plan_completes(present@, self@.snapshot_max_count - 1),
    {
        let mut moves: Vec<usize> = Vec::new();
        if self.snapshot_max_count == 0 {
            return RotationPlan { moves, complete: true };
        }
        let mut idx: usize = self.snapshot_max_count - 1;
        while idx >= 1
            invariant
                idx < present@.len(),
                present@.len() == self.snapshot_max_count,
                planned_moves(present@, present@.len() - 1) == moves@ + planned_moves(
                    present@,
                    idx as int,
                ),
                plan_completes(present@, present@.len() - 1) == plan_completes(
                    present@,
                    idx as int,
                ),
            decreases idx,
        {
            let below = present[idx - 1];
            if below.payload && below.digest {
                let ghost before = moves@;
                moves.push(idx - 1);
                assert(before + (seq![(idx - 1) as usize] + planned_moves(present@, idx - 1))
                    =~= moves@ + planned_moves(present@, idx - 1));
            } else if !below.payload && !below.digest {
            } else {
                assert(moves@ + Seq::<usize>::empty() =~= moves@);
                return RotationPlan { moves, complete: false };
            }
            idx = idx - 1;
        }
        assert(moves@ + Seq::<usize>::empty() =~= moves@);
        RotationPlan { moves, complete: true }
    }

    /// Whether a snapshot ID can be restored, given for each snapshot ID below the maximum
    /// which of its files are there: it is not 0 and below the number of snapshots.
    pub fn is_restorable(&self, present: &Vec<SnapshotPresence>, snapshot_id: SnapshotId) -> (r:
        bool)
        requires
            present@.len() == self@.snapshot_max_count,
        ensures
            r == (0 < snapshot_id.0 < first_absent(present@, 0)),
    {
        snapshot_id.0 != 0 && snapshot_id.0 < self.count_present(present)
    }

    /// Restore snapshot with given ID, given for each snapshot ID below the maximum which of
    /// its files are there, and the files of the snapshot itself: snapshot 0 and every ID from
    /// the number of snapshots on are invalid; any other is loaded from the files.
    pub fn restore_present(
        &self,
        present: &Vec<SnapshotPresence>,
        files: &SnapshotFiles,
        instance_id: InstanceId,
        snapshot_id: SnapshotId,
    ) -> (r: Result<KvsMap, ErrorCode>)
        requires
            present@.len() == self@.snapshot_max_count,
        ensures
            snapshot_id.0 == 0 || snapshot_id.0 >= first_absent(present@, 0) ==> r is Err
                && r->Err_0 == ErrorCode::InvalidSnapshotId,
            0 < snapshot_id.0 < first_absent(present@, 0) ==> is_outcome(
                r,
                load_outcome(
                    join_path(self@.working_dir, kvs_name(instance_id, snapshot_id)),
                    join_path(self@.working_dir, hash_name(instance_id, snapshot_id)),
                    files@,
                ),
            ),
    {
        if !self.is_restorable(present, snapshot_id) {
            return Err(ErrorCode::InvalidSnapshotId);
        }
        let kvs_path = self.kvs_file_path(instance_id, snapshot_id);
        let hash_path = self.hash_file_path(instance_id, snapshot_id);
        Self::load(kvs_path.as_str(), hash_path.as_str(), files)
    }

    /// The number of snapshots, given for each snapshot ID below the maximum which of its
    /// files are there: the first snapshot ID whose payload file is missing.
    pub fn count_present(&self, present: &Vec<SnapshotPresence>) -> (r: usize)
        requires
            present@.len() == self@.snapshot_max_count,
        ensures
            r == first_absent(present@, 0),
            r <= self@.snapshot_max_count,
    {
        let mut count: usize = 0;
        while count < self.snapshot_max_count && present[count].payload
            invariant
                count <= self.snapshot_max_count,
                present@.len() == self.snapshot_max_count,
                first_absent(present@, 0) == first_absent(present@, count as int),
            decreases self.snapshot_max_count - count,
        {
            count = count + 1;
        }
        count
    }
}

/// The first snapshot ID from `i` on whose payload file is not there, or the number of IDs.
pub open spec fn first_absent(present: Seq<SnapshotPresence>, i: int) -> int
    decreases present.len() - i,
{
    if i < 0 || i >= present.len() || !present[i].payload {
        i
    } else {
        first_absent(present, i + 1)
    }
}

/// The plan of a rotation is the rotation: where `present` says which of the files are there,
/// the rotation goes through exactly if the plan completes, and it leaves the files as the
/// planned moves do.
pub proof fn lemma_plan_is_rotation(
    slots: Seq<FilesModel>,
    present: Seq<SnapshotPresence>,
    idx: int,
)
    requires
        present.len() == slots.len(),
        slots.len() <= usize::MAX,
        forall|j: int|
            0 <= j < idx && j < slots.len() ==> present[j] == presence_of(#[trigger] slots[j]),
    ensures
        plan_completes(present, idx) == rotate_from(slots, idx).1,
        after_moves(slots, planned_moves(present, idx)) == rotate_from(slots, idx).0,
    decreases idx,
{
    if 1 <= idx < slots.len() {
        assert(present[idx - 1] == presence_of(slots[idx - 1]));
        if slots[idx - 1].is_full() {
            let next = slots.update(idx, slots[idx - 1]).update(idx - 1, FilesModel::missing());
            assert forall|j: int| 0 <= j < idx - 1 && j < next.len() implies present[j]
                == presence_of(#[trigger] next[j]) by {
                assert(next[j] == slots[j]);
            }
            lemma_plan_is_rotation(next, present, idx - 1);
            let moves = planned_moves(present, idx);
            assert(moves[0] == idx - 1);
            assert(moves.drop_first() =~= planned_moves(present, idx - 1));
            assert(after_moves(slots, moves) == after_moves(next, moves.drop_first()));
        } else if slots[idx - 1].is_missing() {
            lemma_plan_is_rotation(slots, present, idx - 1);
        }
    }
}

/// Counting by which files are there is counting the snapshots.
pub proof fn lemma_count_present(slots: Seq<FilesModel>, present: Seq<SnapshotPresence>, i: int)
    requires
        present.len() == slots.len(),
        forall|j: int| 0 <= j < slots.len() ==> present[j] == presence_of(#[trigger] slots[j]),
    ensures
        first_absent(present, i) == first_gap(slots, i),
    decreases slots.len() - i,
{
    if 0 <= i < slots.len() {
        assert(present[i] == presence_of(slots[i]));
        if slots[i].payload is Some {
            lemma_count_present(slots, present, i + 1);
        }
    }
}

/// Whether a payload text reads back as a map: the parser accepts the text, and the document
/// that it reads stands for a map equal to the given one.
pub open spec fn reads_as(payload: Seq<char>, m: Map<Seq<char>, ValueModel>) -> bool {
    match json_parse_of(payload) {
        Some(document) => decode(document) matches ValueModel::Object(n) && map_eq(n, m),
        None => false,
    }
}

impl JsonBackend {
    /// Whether a payload text reads back as the map.
    pub fn reads_back(payload: &str, kvs_map: &KvsMap) -> (r: bool)
        ensures
            r == reads_as(payload@, kvs_map@),
    {
        match JsonNode::parse(payload) {
            Ok(document) => match KvsValue::from_node(&document) {
                KvsValue::Object(map) => {
                    proof {
                        crate::kvs_value::lemma_object_model(map);
                    }
                    map.same_as(kvs_map)
                },
                _ => false,
            },
            Err(e) => false,
        }
    }
}

/// A flush followed by a load of snapshot 0 gives the map that was flushed, for every payload
/// that reads back as the map: the load then gives a map equal to it.
pub proof fn lemma_flush_then_load_reads_back(
    dir: Seq<char>,
    slots: Seq<FilesModel>,
    instance_id: InstanceId,
    payload: Seq<char>,
    m: Map<Seq<char>, ValueModel>,
)
    requires
        slots.len() >= 1,
    ensures
        reads_as(payload, m) ==> (JsonBackend::load_kvs_model(
            dir,
            JsonBackend::flushed(slots, payload),
            instance_id,
            SnapshotId(0),
        ) matches Ok(n) && map_eq(n, m)),
{
    lemma_rotate_len(slots, slots.len() - 1);
    lemma_path_extensions(dir, instance_id, SnapshotId(0));
}

} // verus!
