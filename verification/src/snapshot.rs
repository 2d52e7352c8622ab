//! Snapshots: the state of a table at some time, with the summary of the
//! changes that produced it, and the references that name snapshots.

use vstd::prelude::*;

use std::sync::Arc;

use crate::decimal::{i32_to_string, signed_decimal};
use crate::string_map::StringMap;
use crate::table::{clone_arc, find_schema, find_snapshot, SchemaId, SchemaRef, TableMetadata};
use crate::time::{utc_from_millis, utc_millis_representable, UtcDateTime};

verus! {

/// The ref name of the main branch of the table.
pub const MAIN_BRANCH: &'static str = "main";

/// The operation field is used by some operations, like snapshot expiration,
/// to skip processing certain snapshots.
#[derive(Clone, Copy, Debug, PartialEq, Eq, Structural)]
pub enum Operation {
    /// Only data files were added and no files were removed.
    Append,
    /// Data and delete files were added and removed without changing table data;
    /// i.e., compaction, changing the data file format, or relocating data files.
    Replace,
    /// Data and delete files were added and removed in a logical overwrite operation.
    Overwrite,
    /// Data files were removed and their contents logically deleted and/or delete
    /// files were added to delete rows.
    Delete,
}

/// The lowercase name of an operation.
pub open spec fn operation_name(op: Operation) -> Seq<char> {
    match op {
        Operation::Append => "append"@,
        Operation::Replace => "replace"@,
        Operation::Overwrite => "overwrite"@,
        Operation::Delete => "delete"@,
    }
}

impl Operation {
    /// Returns the string representation (lowercase) of the operation.
    pub fn as_str(&self) -> (r: &str)
        ensures
            r@ == operation_name(*self),
    {
        match self {
            Operation::Append => "append",
            Operation::Replace => "replace",
            Operation::Overwrite => "overwrite",
            Operation::Delete => "delete",
        }
    }
}

/// Different operations have different names.
pub proof fn lemma_operation_names_distinct(a: Operation, b: Operation)
    ensures
        operation_name(a) == operation_name(b) <==> a == b,
{
    reveal_strlit("append");
    reveal_strlit("replace");
    reveal_strlit("overwrite");
    reveal_strlit("delete");
    if a != b {
        match (a, b) {
            (Operation::Append, Operation::Replace) => assert(operation_name(a)[1] != operation_name(b)[1]),
            (Operation::Replace, Operation::Append) => assert(operation_name(a)[1] != operation_name(b)[1]),
            (Operation::Overwrite, Operation::Delete) => assert(operation_name(a)[0] != operation_name(b)[0]),
            (Operation::Delete, Operation::Overwrite) => assert(operation_name(a)[0] != operation_name(b)[0]),
            _ => assert(operation_name(a).len() != operation_name(b).len() || operation_name(a)[0] != operation_name(b)[0]),
        }
    }
}

impl Default for Operation {
    /// An append.
    fn default() -> (r: Operation)
        ensures
            r == Operation::Append,
    {
        Operation::Append
    }
}

/// Summarises the changes in the snapshot.
#[derive(Debug, Clone, PartialEq, Eq)]
pub struct Summary {
    /// The type of operation in the snapshot
    pub operation: Operation,
    /// Other summary data.
    pub additional_properties: StringMap<String>,
}

/// Reference to [`Snapshot`].
pub type SnapshotRef = Arc<Snapshot>;

/// Why a snapshot could not give what was asked of it.
#[derive(Debug, Clone, Copy, PartialEq, Eq, Structural)]
pub enum SnapshotError {
    /// The snapshot names a schema that the table metadata does not hold.
    SchemaNotFound(SchemaId),
    /// The snapshot's timestamp is out of the range of a date and time.
    InvalidTimestamp(i64),
}

/// The text that describes an error.
pub open spec fn error_message(e: SnapshotError) -> Seq<char> {
    match e {
        SnapshotError::SchemaNotFound(id) => "Schema with id "@ + signed_decimal(id as int) + " not found"@,
        SnapshotError::InvalidTimestamp(_) => "Can't convert timestamp to utc"@,
    }
}

impl SnapshotError {
    /// The text that describes this error, such as `Schema with id 3 not found`.
    pub fn message(&self) -> (r: String)
        ensures
            r@ == error_message(*self),
    {
        match self {
            SnapshotError::SchemaNotFound(id) => {
                let mut r = String::from_str("Schema with id ");
                r.append(i32_to_string(*id).as_str());
                r.append(" not found");
                r
            },
            SnapshotError::InvalidTimestamp(_) => String::from_str("Can't convert timestamp to utc"),
        }
    }
}

/// A snapshot represents the state of a table at some time and is used to
/// access the complete set of data files in the table.
#[derive(Debug, PartialEq, Eq, Clone)]
pub struct Snapshot {
    /// A unique long ID
    snapshot_id: i64,
    /// The snapshot ID of the snapshot's parent.
    /// Omitted for any snapshot with no parent
    parent_snapshot_id: Option<i64>,
    /// A monotonically increasing long that tracks the order of
    /// changes to a table.
    sequence_number: i64,
    /// A timestamp when the snapshot was created, used for garbage
    /// collection and table inspection
    timestamp_ms: i64,
    /// The location of a manifest list for this snapshot that
    /// tracks manifest files with additional metadata.
    manifest_list: String,
    /// A string map that summarizes the snapshot changes, including operation.
    summary: Summary,
    /// ID of the table's current schema when the snapshot was created.
    schema_id: Option<SchemaId>,
}

/// What a snapshot holds, with its manifest list location as text.
pub ghost struct SnapshotView {
    pub snapshot_id: i64,
    pub parent_snapshot_id: Option<i64>,
    pub sequence_number: i64,
    pub timestamp_ms: i64,
    pub manifest_list: Seq<char>,
    pub summary: Summary,
    pub schema_id: Option<SchemaId>,
}

impl View for Snapshot {
    type V = SnapshotView;

    closed spec fn view(&self) -> SnapshotView {
        SnapshotView {
            snapshot_id: self.snapshot_id,
            parent_snapshot_id: self.parent_snapshot_id,
            sequence_number: self.sequence_number,
            timestamp_ms: self.timestamp_ms,
            manifest_list: self.manifest_list@,
            summary: self.summary,
            schema_id: self.schema_id,
        }
    }
}

impl Snapshot {
    /// Get the id of the snapshot
    pub fn snapshot_id(&self) -> (r: i64)
        ensures
            r == self@.snapshot_id,
    {
        self.snapshot_id
    }

    /// Get parent snapshot id.
    pub fn parent_snapshot_id(&self) -> (r: Option<i64>)
        ensures
            r == self@.parent_snapshot_id,
    {
        self.parent_snapshot_id
    }

    /// Get sequence_number of the snapshot. Is 0 for Iceberg V1 tables.
    pub fn sequence_number(&self) -> (r: i64)
        ensures
            r == self@.sequence_number,
    {
        self.sequence_number
    }

    /// Get location of manifest_list file
    pub fn manifest_list(&self) -> (r: &str)
        ensures
            r@ == self@.manifest_list,
    {
        self.manifest_list.as_str()
    }

    /// Get summary of the snapshot
    pub fn summary(&self) -> (r: &Summary)
        ensures
            *r == self@.summary,
    {
        &self.summary
    }

    /// Get the timestamp of when the snapshot was created: an error when the
    /// timestamp is out of the range of dates and times.
    pub fn timestamp(&self) -> (r: Result<UtcDateTime, SnapshotError>)
        ensures
            r is Ok == utc_millis_representable(self@.timestamp_ms),
            r matches Ok(t) ==> t.millis_spec() == self@.timestamp_ms,
            r matches Err(e) ==> e == SnapshotError::InvalidTimestamp(self@.timestamp_ms),
    {
        match utc_from_millis(self.timestamp_ms) {
            Some(t) => Ok(t),
            None => Err(SnapshotError::InvalidTimestamp(self.timestamp_ms)),
        }
    }

    /// Get the timestamp of when the snapshot was created in milliseconds
    pub fn timestamp_ms(&self) -> (r: i64)
        ensures
            r == self@.timestamp_ms,
    {
        self.timestamp_ms
    }

    /// Get the schema id of this snapshot.
    pub fn schema_id(&self) -> (r: Option<SchemaId>)
        ensures
            r == self@.schema_id,
    {
        self.schema_id
    }

    /// Get the schema of this snapshot: the one it names, or else the table's
    /// current schema; an error when the table has no schema with the id it
    /// names.
    pub fn schema(&self, table_metadata: &TableMetadata) -> (r: Result<SchemaRef, SnapshotError>)
        requires
            self@.schema_id is None ==> find_schema(table_metadata.schemas@, table_metadata.current_schema_id) is Some,
        ensures
            match self@.schema_id {
                Some(id) => match find_schema(table_metadata.schemas@, id) {
                    Some(s) => r == Ok::<SchemaRef, SnapshotError>(s),
                    None => r == Err::<SchemaRef, SnapshotError>(SnapshotError::SchemaNotFound(id)),
                },
                None => r == Ok::<SchemaRef, SnapshotError>(
                    find_schema(table_metadata.schemas@, table_metadata.current_schema_id).unwrap(),
                ),
            },
    {
        match self.schema_id() {
            Some(schema_id) => match table_metadata.schema_by_id(schema_id) {
                Some(schema) => Ok(clone_arc(schema)),
                None => Err(SnapshotError::SchemaNotFound(schema_id)),
            },
            None => Ok(clone_arc(table_metadata.current_schema())),
        }
    }

    /// Get the parent snapshot, if it has one and the table holds it.
    pub fn parent_snapshot(&self, table_metadata: &TableMetadata) -> (r: Option<SnapshotRef>)
        ensures
            r == match self@.parent_snapshot_id {
                Some(id) => find_snapshot(table_metadata.snapshots@, id),
                None => None,
            },
    {
        match self.parent_snapshot_id {
            Some(id) => match table_metadata.snapshot_by_id(id) {
                Some(s) => Some(clone_arc(s)),
                None => None,
            },
            None => None,
        }
    }

    /// The log entry of this snapshot: when it was made, and its id.
    pub fn log(&self) -> (r: SnapshotLog)
        ensures
            r.timestamp_ms == self@.timestamp_ms,
            r.snapshot_id == self@.snapshot_id,
    {
        SnapshotLog { timestamp_ms: self.timestamp_ms, snapshot_id: self.snapshot_id }
    }
}

/// An entry of a table's snapshot log.
#[derive(Debug, Clone, Copy, PartialEq, Eq, Structural)]
pub struct SnapshotLog {
    /// When the snapshot was made, in milliseconds since the epoch.
    pub timestamp_ms: i64,
    /// The id of the snapshot.
    pub snapshot_id: i64,
}

/// The fields of a snapshot that a builder has set so far.
pub ghost struct SnapshotBuilderView {
    pub snapshot_id: Option<i64>,
    pub parent_snapshot_id: Option<i64>,
    pub sequence_number: Option<i64>,
    pub timestamp_ms: Option<i64>,
    pub manifest_list: Option<Seq<char>>,
    pub summary: Option<Summary>,
    pub schema_id: Option<SchemaId>,
}

/// Builds a [`Snapshot`] field by field; the id, sequence number, timestamp,
/// manifest list and summary must be set, the parent id and schema id
/// default to none.
pub struct SnapshotBuilder {
    snapshot_id: Option<i64>,
    parent_snapshot_id: Option<i64>,
    sequence_number: Option<i64>,
    timestamp_ms: Option<i64>,
    manifest_list: Option<String>,
    summary: Option<Summary>,
    schema_id: Option<SchemaId>,
}

impl View for SnapshotBuilder {
    type V = SnapshotBuilderView;

    closed spec fn view(&self) -> SnapshotBuilderView {
        SnapshotBuilderView {
            snapshot_id: self.snapshot_id,
            parent_snapshot_id: self.parent_snapshot_id,
            sequence_number: self.sequence_number,
            timestamp_ms: self.timestamp_ms,
            manifest_list: match self.manifest_list {
                Some(m) => Some(m@),
                None => None,
            },
            summary: self.summary,
            schema_id: self.schema_id,
        }
    }
}

impl SnapshotBuilder {
    /// Whether every field without a default has been set.
    pub open spec fn is_complete(&self) -> bool {
        &&& self@.snapshot_id is Some
        &&& self@.sequence_number is Some
        &&& self@.timestamp_ms is Some
        &&& self@.manifest_list is Some
        &&& self@.summary is Some
    }

    /// Sets the id of the snapshot.
    pub fn with_snapshot_id(self, snapshot_id: i64) -> (r: Self)
        ensures
            r@ == (SnapshotBuilderView { snapshot_id: Some(snapshot_id), ..self@ }),
    {
        SnapshotBuilder { snapshot_id: Some(snapshot_id), ..self }
    }

    /// Sets the id of the parent snapshot, or none.
    pub fn with_parent_snapshot_id(self, parent_snapshot_id: Option<i64>) -> (r: Self)
        ensures
            r@ == (SnapshotBuilderView { parent_snapshot_id: parent_snapshot_id, ..self@ }),
    {
        SnapshotBuilder { parent_snapshot_id, ..self }
    }

    /// Sets the sequence number.
    pub fn with_sequence_number(self, sequence_number: i64) -> (r: Self)
        ensures
            r@ == (SnapshotBuilderView { sequence_number: Some(sequence_number), ..self@ }),
    {
        SnapshotBuilder { sequence_number: Some(sequence_number), ..self }
    }

    /// Sets the creation time, in milliseconds since the epoch.
    pub fn with_timestamp_ms(self, timestamp_ms: i64) -> (r: Self)
        ensures
            r@ == (SnapshotBuilderView { timestamp_ms: Some(timestamp_ms), ..self@ }),
    {
        SnapshotBuilder { timestamp_ms: Some(timestamp_ms), ..self }
    }

    /// Sets the location of the manifest list.
    pub fn with_manifest_list(self, manifest_list: String) -> (r: Self)
        ensures
            r@ == (SnapshotBuilderView { manifest_list: Some(manifest_list@), ..self@ }),
    {
        SnapshotBuilder { manifest_list: Some(manifest_list), ..self }
    }

    /// Sets the summary.
    pub fn with_summary(self, summary: Summary) -> (r: Self)
        ensures
            r@ == (SnapshotBuilderView { summary: Some(summary), ..self@ }),
    {
        SnapshotBuilder { summary: Some(summary), ..self }
    }

    /// Sets the id of the schema.
    pub fn with_schema_id(self, schema_id: SchemaId) -> (r: Self)
        ensures
            r@ == (SnapshotBuilderView { schema_id: Some(schema_id), ..self@ }),
    {
        SnapshotBuilder { schema_id: Some(schema_id), ..self }
    }

    /// Sets the id of the schema, or none.
    pub fn schema_id_opt(self, schema_id: Option<SchemaId>) -> (r: Self)
        ensures
            r@ == (SnapshotBuilderView { schema_id: schema_id, ..self@ }),
    {
        SnapshotBuilder { schema_id, ..self }
    }

    /// The snapshot with the fields set.
    pub fn build(self) -> (r: Snapshot)
        requires
            self.is_complete(),
        ensures
            r@ == (SnapshotView {
                snapshot_id: self@.snapshot_id.unwrap(),
                parent_snapshot_id: self@.parent_snapshot_id,
                sequence_number: self@.sequence_number.unwrap(),
                timestamp_ms: self@.timestamp_ms.unwrap(),
                manifest_list: self@.manifest_list.unwrap(),
                summary: self@.summary.unwrap(),
                schema_id: self@.schema_id,
            }),
    {
        Snapshot {
            snapshot_id: self.snapshot_id.unwrap(),
            parent_snapshot_id: self.parent_snapshot_id,
            sequence_number: self.sequence_number.unwrap(),
            timestamp_ms: self.timestamp_ms.unwrap(),
            manifest_list: self.manifest_list.unwrap(),
            summary: self.summary.unwrap(),
            schema_id: self.schema_id,
        }
    }
}

impl Snapshot {
    /// A builder with no field set.
    pub fn builder() -> (r: SnapshotBuilder)
        ensures
            r@ == (SnapshotBuilderView {
                snapshot_id: None,
                parent_snapshot_id: None,
                sequence_number: None,
                timestamp_ms: None,
                manifest_list: None,
                summary: None,
                schema_id: None,
            }),
    {
        SnapshotBuilder {
            snapshot_id: None,
            parent_snapshot_id: None,
            sequence_number: None,
            timestamp_ms: None,
            manifest_list: None,
            summary: None,
            schema_id: None,
        }
    }
}

/// The structure of a v2 snapshot, as tables of format version 2 store it.
#[derive(Debug, PartialEq, Eq)]
pub struct SnapshotV2 {
    pub snapshot_id: i64,
    pub parent_snapshot_id: Option<i64>,
    pub sequence_number: i64,
    pub timestamp_ms: i64,
    pub manifest_list: String,
    pub summary: Summary,
    pub schema_id: Option<SchemaId>,
}

/// The structure of a v1 snapshot, as tables of format version 1 store it.
#[derive(Debug, PartialEq, Eq)]
pub struct SnapshotV1 {
    pub snapshot_id: i64,
    pub parent_snapshot_id: Option<i64>,
    pub timestamp_ms: i64,
    pub manifest_list: Option<String>,
    pub manifests: Option<Vec<String>>,
    pub summary: Option<Summary>,
    pub schema_id: Option<SchemaId>,
}

impl From<SnapshotV2> for Snapshot {
    /// The snapshot that a v2 snapshot describes, field for field.
    fn from(v2: SnapshotV2) -> (r: Snapshot)
        ensures
            r@ == (SnapshotView {
                snapshot_id: v2.snapshot_id,
                parent_snapshot_id: v2.parent_snapshot_id,
                sequence_number: v2.sequence_number,
                timestamp_ms: v2.timestamp_ms,
                manifest_list: v2.manifest_list@,
                summary: v2.summary,
                schema_id: v2.schema_id,
            }),
    {
        Snapshot {
            snapshot_id: v2.snapshot_id,
            parent_snapshot_id: v2.parent_snapshot_id,
            sequence_number: v2.sequence_number,
            timestamp_ms: v2.timestamp_ms,
            manifest_list: v2.manifest_list,
            summary: v2.summary,
            schema_id: v2.schema_id,
        }
    }
}

impl vstd::std_specs::convert::FromSpecImpl<SnapshotV2> for Snapshot {
    open spec fn obeys_from_spec() -> bool {
        true
    }

    closed spec fn from_spec(v2: SnapshotV2) -> Snapshot {
        Snapshot {
            snapshot_id: v2.snapshot_id,
            parent_snapshot_id: v2.parent_snapshot_id,
            sequence_number: v2.sequence_number,
            timestamp_ms: v2.timestamp_ms,
            manifest_list: v2.manifest_list,
            summary: v2.summary,
            schema_id: v2.schema_id,
        }
    }
}

impl From<Snapshot> for SnapshotV2 {
    /// The v2 structure of a snapshot, field for field.
    fn from(v2: Snapshot) -> (r: SnapshotV2)
        ensures
            r.snapshot_id == v2@.snapshot_id,
            r.parent_snapshot_id == v2@.parent_snapshot_id,
            r.sequence_number == v2@.sequence_number,
            r.timestamp_ms == v2@.timestamp_ms,
            r.manifest_list@ == v2@.manifest_list,
            r.summary == v2@.summary,
            r.schema_id == v2@.schema_id,
    {
        SnapshotV2 {
            snapshot_id: v2.snapshot_id,
            parent_snapshot_id: v2.parent_snapshot_id,
            sequence_number: v2.sequence_number,
            timestamp_ms: v2.timestamp_ms,
            manifest_list: v2.manifest_list,
            summary: v2.summary,
            schema_id: v2.schema_id,
        }
    }
}

impl vstd::std_specs::convert::FromSpecImpl<Snapshot> for SnapshotV2 {
    open spec fn obeys_from_spec() -> bool {
        true
    }

    closed spec fn from_spec(v2: Snapshot) -> SnapshotV2 {
        SnapshotV2 {
            snapshot_id: v2.snapshot_id,
            parent_snapshot_id: v2.parent_snapshot_id,
            sequence_number: v2.sequence_number,
            timestamp_ms: v2.timestamp_ms,
            manifest_list: v2.manifest_list,
            summary: v2.summary,
            schema_id: v2.schema_id,
        }
    }
}

/// The manifest list location of the snapshot that a v1 snapshot describes:
/// its manifest list, or a note that the snapshot is invalid (manifest files
/// beside a manifest list) or unsupported (no manifest list).
pub open spec fn v1_manifest_list(manifest_list: Option<String>, manifests: Option<Vec<String>>) -> Seq<char> {
    match (manifest_list, manifests) {
        (Some(file), None) => file@,
        (Some(_), Some(_)) => "Invalid v1 snapshot, when manifest list provided, manifest files should be omitted"@,
        (None, _) => "Unsupported v1 snapshot, only manifest list is supported"@,
    }
}

/// Whether `v1` describes the snapshot `s`: the same fields, sequence number
/// 0, the manifest list location as `v1_manifest_list` gives it, and an
/// append with no properties when `v1` has no summary.
pub open spec fn v1_describes(v1: SnapshotV1, s: SnapshotView) -> bool {
    &&& s.snapshot_id == v1.snapshot_id
    &&& s.parent_snapshot_id == v1.parent_snapshot_id
    &&& s.sequence_number == 0
    &&& s.timestamp_ms == v1.timestamp_ms
    &&& s.manifest_list == v1_manifest_list(v1.manifest_list, v1.manifests)
    &&& match v1.summary {
        Some(summary) => s.summary == summary,
        None => s.summary.operation == Operation::Append && s.summary.additional_properties@ == Map::<
            Seq<char>,
            Seq<char>,
        >::empty(),
    }
    &&& s.schema_id == v1.schema_id
}

/// The snapshot that a v1 snapshot describes: sequence number 0, and an
/// append with no properties for a missing summary.
fn snapshot_from_v1(v1: SnapshotV1) -> (r: Snapshot)
    ensures
        v1_describes(v1, r@),
{
    Snapshot {
        snapshot_id: v1.snapshot_id,
        parent_snapshot_id: v1.parent_snapshot_id,
        sequence_number: 0,
        timestamp_ms: v1.timestamp_ms,
        manifest_list: match (v1.manifest_list, v1.manifests) {
            (Some(file), None) => file,
            (Some(_), Some(_)) => String::from_str("Invalid v1 snapshot, when manifest list provided, manifest files should be omitted"),
            (None, _) => String::from_str("Unsupported v1 snapshot, only manifest list is supported"),
        },
        summary: match v1.summary {
            Some(summary) => summary,
            None => Summary { operation: Operation::default(), additional_properties: StringMap::new() },
        },
        schema_id: v1.schema_id,
    }
}

impl TryFrom<SnapshotV1> for Snapshot {
    type Error = SnapshotError;

    /// The snapshot that a v1 snapshot describes; never an error.
    fn try_from(v1: SnapshotV1) -> (r: Result<Snapshot, SnapshotError>)
        ensures
            r matches Ok(s) && v1_describes(v1, s@),
    {
        Ok(snapshot_from_v1(v1))
    }
}

impl vstd::std_specs::convert::TryFromSpecImpl<SnapshotV1> for Snapshot {
    /// The snapshot holds new text for an invalid or unsupported manifest
    /// list, which no spec function can name as a value; `try_from` states
    /// its result by the snapshot's view instead.
    open spec fn obeys_try_from_spec() -> bool {
        false
    }

    closed spec fn try_from_spec(v1: SnapshotV1) -> Result<Snapshot, SnapshotError> {
        arbitrary()
    }
}

impl From<Snapshot> for SnapshotV1 {
    /// The v1 structure of a snapshot: its manifest list and its summary,
    /// without manifest files; the sequence number is not kept.
    fn from(v2: Snapshot) -> (r: SnapshotV1)
        ensures
            r.snapshot_id == v2@.snapshot_id,
            r.parent_snapshot_id == v2@.parent_snapshot_id,
            r.timestamp_ms == v2@.timestamp_ms,
            r.manifest_list matches Some(m) && m@ == v2@.manifest_list,
            r.manifests is None,
            r.summary == Some(v2@.summary),
            r.schema_id == v2@.schema_id,
    {
        SnapshotV1 {
            snapshot_id: v2.snapshot_id,
            parent_snapshot_id: v2.parent_snapshot_id,
            timestamp_ms: v2.timestamp_ms,
            manifest_list: Some(v2.manifest_list),
            summary: Some(v2.summary),
            schema_id: v2.schema_id,
            manifests: None,
        }
    }
}

impl vstd::std_specs::convert::FromSpecImpl<Snapshot> for SnapshotV1 {
    open spec fn obeys_from_spec() -> bool {
        true
    }

    closed spec fn from_spec(v2: Snapshot) -> SnapshotV1 {
        SnapshotV1 {
            snapshot_id: v2.snapshot_id,
            parent_snapshot_id: v2.parent_snapshot_id,
            timestamp_ms: v2.timestamp_ms,
            manifest_list: Some(v2.manifest_list),
            summary: Some(v2.summary),
            schema_id: v2.schema_id,
            manifests: None,
        }
    }
}

/// A snapshot written in the v2 structure and read back is the same snapshot.
pub proof fn lemma_v2_roundtrip(s: Snapshot)
    ensures
        <Snapshot as vstd::std_specs::convert::FromSpec<SnapshotV2>>::from_spec(
            <SnapshotV2 as vstd::std_specs::convert::FromSpec<Snapshot>>::from_spec(s),
        ) == s,
{
}

/// A v2 snapshot read into a snapshot and written back is the same v2 snapshot.
pub proof fn lemma_v2_structure_roundtrip(v2: SnapshotV2)
    ensures
        <SnapshotV2 as vstd::std_specs::convert::FromSpec<Snapshot>>::from_spec(
            <Snapshot as vstd::std_specs::convert::FromSpec<SnapshotV2>>::from_spec(v2),
        ) == v2,
{
}

/// A snapshot with sequence number 0 written in the v1 structure is
/// described by it exactly: reading it back gives the same snapshot. (The v1
/// structure has no sequence number; reading gives 0.)
pub proof fn lemma_v1_roundtrip(s: Snapshot)
    requires
        s@.sequence_number == 0,
    ensures
        v1_describes(<SnapshotV1 as vstd::std_specs::convert::FromSpec<Snapshot>>::from_spec(s), s@),
{
}

/// Iceberg tables keep track of branches and tags using snapshot references.
#[derive(Debug, PartialEq, Eq, Clone, Copy, Structural)]
pub struct SnapshotReference {
    /// A reference's snapshot ID. The tagged snapshot or latest snapshot of a branch.
    pub snapshot_id: i64,
    /// Snapshot retention policy
    pub retention: SnapshotRetention,
}

impl SnapshotReference {
    /// Returns true if the snapshot reference is a branch.
    pub fn is_branch(&self) -> (r: bool)
        ensures
            r == self.retention is Branch,
    {
        match self.retention {
            SnapshotRetention::Branch { .. } => true,
            SnapshotRetention::Tag { .. } => false,
        }
    }

    /// Create new snapshot reference
    pub fn new(snapshot_id: i64, retention: SnapshotRetention) -> (r: Self)
        ensures
            r == (SnapshotReference { snapshot_id, retention }),
    {
        SnapshotReference { snapshot_id, retention }
    }
}

/// The snapshot expiration procedure removes snapshots from table metadata
/// and applies the table's retention policy.
#[derive(Debug, PartialEq, Eq, Clone, Copy, Structural)]
pub enum SnapshotRetention {
    /// Branches are mutable named references that can be updated by committing a new snapshot as
    /// the branch's referenced snapshot using the Commit Conflict Resolution and Retry procedures.
    Branch {
        /// A positive number for the minimum number of snapshots to keep in a branch while expiring snapshots.
        /// Defaults to table property history.expire.min-snapshots-to-keep.
        min_snapshots_to_keep: Option<i32>,
        /// A positive number for the max age of snapshots to keep when expiring, including the latest snapshot.
        /// Defaults to table property history.expire.max-snapshot-age-ms.
        max_snapshot_age_ms: Option<i64>,
        /// For snapshot references except the main branch, a positive number for the max age of the snapshot reference to keep while expiring snapshots.
        /// Defaults to table property history.expire.max-ref-age-ms. The main branch never expires.
        max_ref_age_ms: Option<i64>,
    },
    /// Tags are labels for individual snapshots.
    Tag {
        /// For snapshot references except the main branch, a positive number for the max age of the snapshot reference to keep while expiring snapshots.
        /// Defaults to table property history.expire.max-ref-age-ms. The main branch never expires.
        max_ref_age_ms: Option<i64>,
    },
}

impl SnapshotRetention {
    /// Create a new branch retention policy
    pub fn branch(
        min_snapshots_to_keep: Option<i32>,
        max_snapshot_age_ms: Option<i64>,
        max_ref_age_ms: Option<i64>,
    ) -> (r: Self)
        ensures
            r == (SnapshotRetention::Branch { min_snapshots_to_keep, max_snapshot_age_ms, max_ref_age_ms }),
    {
        SnapshotRetention::Branch { min_snapshots_to_keep, max_snapshot_age_ms, max_ref_age_ms }
    }
}

} // verus!
