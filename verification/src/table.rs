//! The parts of a table's metadata that snapshots read: data files and their
//! partitions, partition specs, schemas, and the table's schemas and snapshots.

use std::sync::Arc;

use vstd::prelude::*;

use crate::snapshot::SnapshotRef;
use crate::text::{joined, join_texts, texts};

verus! {

/// The id of a schema of a table.
pub type SchemaId = i32;

/// The kind of content a data file holds.
#[derive(Clone, Copy, Debug, PartialEq, Eq)]
pub enum DataContentType {
    /// Rows of table data.
    Data,
    /// Deletes of rows by file and position.
    PositionDeletes,
    /// Deletes of rows by the values of some columns.
    EqualityDeletes,
}

/// The partition values of a data file, one per field of its partition spec,
/// each already in its human-readable form; `None` is a null value.
#[derive(Clone, Debug)]
pub struct Struct {
    /// The values, in the order of the partition spec's fields.
    pub values: Vec<Option<String>>,
}

impl Struct {
    /// The values of the partition, by their views.
    pub open spec fn values_view(&self) -> Seq<Option<Seq<char>>> {
        self.values.deep_view()
    }

    /// The number of values in the partition.
    pub fn len(&self) -> (r: usize)
        ensures
            r == self.values_view().len(),
    {
        self.values.len()
    }
}

/// A data or delete file of a table, as far as snapshot summaries read it.
#[derive(Clone, Debug)]
pub struct DataFile {
    /// What the file holds.
    pub content: DataContentType,
    /// The partition the file belongs to.
    pub partition: Struct,
    /// The number of records (rows, or deletes) in the file.
    pub record_count: u64,
    /// The size of the file in bytes.
    pub file_size_in_bytes: u64,
}

impl DataFile {
    /// The kind of content of this file.
    pub fn content_type(&self) -> (r: DataContentType)
        ensures
            r == self.content,
    {
        self.content
    }
}

/// A field of a partition spec, as far as partition paths show it.
#[derive(Clone, Debug)]
pub struct PartitionField {
    /// The name of the partition field.
    pub name: String,
}

/// How the rows of a table are partitioned.
#[derive(Clone, Debug)]
pub struct PartitionSpec {
    /// The id of this spec.
    pub spec_id: i32,
    /// The partition fields, in order.
    pub fields: Vec<PartitionField>,
}

/// Reference to a [`PartitionSpec`].
pub type PartitionSpecRef = Arc<PartitionSpec>;

/// The text `name=value` of one partition field; a null value reads `null`.
pub open spec fn partition_segment(name: Seq<char>, value: Option<Seq<char>>) -> Seq<char> {
    name + "="@ + match value {
        Some(v) => v,
        None => "null"@,
    }
}

impl PartitionSpec {
    /// The names of the partition fields, in order.
    pub open spec fn field_names(&self) -> Seq<Seq<char>> {
        self.fields@.map_values(|f: PartitionField| f.name@)
    }

    /// The path of the partition `data` under this spec: one `name=value`
    /// segment per field, separated by `/`.
    pub open spec fn partition_path(&self, data: &Struct) -> Seq<char> {
        joined(
            Seq::new(
                self.fields@.len(),
                |i: int| partition_segment(self.field_names()[i], data.values_view()[i]),
            ),
            "/"@,
        )
    }

    /// The path of the partition `data` under this spec, such as
    /// `year=2024/city=null`.
    pub fn partition_to_path(&self, data: &Struct, schema: SchemaRef) -> (r: String)
        requires
            data.values_view().len() >= self.fields@.len(),
        ensures
            r@ == self.partition_path(data),
    {
        let n = self.fields.len();
        let mut segments: Vec<String> = Vec::new();
        let mut i: usize = 0;
        while i < n
            invariant
                n == self.fields@.len(),
                data.values_view().len() >= n,
                i <= n,
                segments@.len() == i,
                forall|j: int| 0 <= j < i ==> #[trigger] segments@[j]@ == partition_segment(
                    self.field_names()[j],
                    data.values_view()[j],
                ),
            decreases n - i,
        {
            let mut segment = self.fields[i].name.clone();
            segment.append("=");
            match &data.values[i] {
                Some(v) => segment.append(v.as_str()),
                None => segment.append("null"),
            }
            assert(segment@ == partition_segment(self.field_names()[i as int], data.values_view()[i as int]));
            segments.push(segment);
            i = i + 1;
        }
        let r = join_texts(&segments, "/");
        assert(texts(segments@) =~= Seq::new(
            self.fields@.len(),
            |i: int| partition_segment(self.field_names()[i], data.values_view()[i]),
        ));
        r
    }
}

/// A schema of a table, as far as snapshots refer to it.
#[derive(Clone, Copy, Debug, PartialEq, Eq)]
pub struct Schema {
    /// The id of this schema.
    pub schema_id: SchemaId,
}

/// Reference to a [`Schema`].
pub type SchemaRef = Arc<Schema>;

/// Calls std's `Arc::clone`. Claimed: the clone points at the same value.
#[verifier::external_body]
pub(crate) fn clone_arc<T>(a: &Arc<T>) -> (r: Arc<T>)
    ensures
        r == *a,
{
    Arc::clone(a)
}

/// The first schema of `schemas` with the id `id`, if any.
pub open spec fn find_schema(schemas: Seq<SchemaRef>, id: SchemaId) -> Option<SchemaRef>
    decreases schemas.len(),
{
    if schemas.len() == 0 {
        None
    } else if schemas[0].schema_id == id {
        Some(schemas[0])
    } else {
        find_schema(schemas.drop_first(), id)
    }
}

/// The first snapshot of `snapshots` with the id `id`, if any.
pub open spec fn find_snapshot(snapshots: Seq<SnapshotRef>, id: i64) -> Option<SnapshotRef>
    decreases snapshots.len(),
{
    if snapshots.len() == 0 {
        None
    } else if snapshots[0]@.snapshot_id == id {
        Some(snapshots[0])
    } else {
        find_snapshot(snapshots.drop_first(), id)
    }
}

/// Looking up a schema by id finds the first schema with that id, wherever it
/// stands, and finds nothing only when no schema has the id.
pub proof fn lemma_find_schema(schemas: Seq<SchemaRef>, id: SchemaId)
    ensures
        forall|i: int|
            0 <= i < schemas.len() && schemas[i].schema_id == id && (forall|k: int| 0 <= k < i ==> schemas[k].schema_id != id)
                ==> find_schema(schemas, id) == Some(#[trigger] schemas[i]),
        (forall|i: int| 0 <= i < schemas.len() ==> #[trigger] schemas[i].schema_id != id) ==> find_schema(schemas, id) is None,
    decreases schemas.len(),
{
    if schemas.len() > 0 {
        let rest = schemas.drop_first();
        lemma_find_schema(rest, id);
        assert forall|i: int|
            0 <= i < schemas.len() && schemas[i].schema_id == id && (forall|k: int| 0 <= k < i ==> schemas[k].schema_id != id)
                implies find_schema(schemas, id) == Some(#[trigger] schemas[i]) by {
            if i > 0 {
                assert(schemas[0].schema_id != id);
                assert(rest[i - 1] == schemas[i]);
                assert forall|k: int| 0 <= k < i - 1 implies rest[k].schema_id != id by {
                    assert(rest[k] == schemas[k + 1]);
                }
            }
        }
        if forall|i: int| 0 <= i < schemas.len() ==> #[trigger] schemas[i].schema_id != id {
            assert(schemas[0].schema_id != id);
            assert forall|i: int| 0 <= i < rest.len() implies #[trigger] rest[i].schema_id != id by {
                assert(rest[i] == schemas[i + 1]);
            }
        }
    }
}

/// Looking up a snapshot by id finds the first snapshot with that id,
/// wherever it stands, and finds nothing only when no snapshot has the id.
pub proof fn lemma_find_snapshot(snapshots: Seq<SnapshotRef>, id: i64)
    ensures
        forall|i: int|
            0 <= i < snapshots.len() && snapshots[i]@.snapshot_id == id && (forall|k: int| 0 <= k < i ==> snapshots[k]@.snapshot_id != id)
                ==> find_snapshot(snapshots, id) == Some(#[trigger] snapshots[i]),
        (forall|i: int| 0 <= i < snapshots.len() ==> #[trigger] snapshots[i]@.snapshot_id != id) ==> find_snapshot(snapshots, id) is None,
    decreases snapshots.len(),
{
    if snapshots.len() > 0 {
        let rest = snapshots.drop_first();
        lemma_find_snapshot(rest, id);
        assert forall|i: int|
            0 <= i < snapshots.len() && snapshots[i]@.snapshot_id == id && (forall|k: int| 0 <= k < i ==> snapshots[k]@.snapshot_id != id)
                implies find_snapshot(snapshots, id) == Some(#[trigger] snapshots[i]) by {
            if i > 0 {
                assert(snapshots[0]@.snapshot_id != id);
                assert(rest[i - 1] == snapshots[i]);
                assert forall|k: int| 0 <= k < i - 1 implies rest[k]@.snapshot_id != id by {
                    assert(rest[k] == snapshots[k + 1]);
                }
            }
        }
        if forall|i: int| 0 <= i < snapshots.len() ==> #[trigger] snapshots[i]@.snapshot_id != id {
            assert(snapshots[0]@.snapshot_id != id);
            assert forall|i: int| 0 <= i < rest.len() implies #[trigger] rest[i]@.snapshot_id != id by {
                assert(rest[i] == snapshots[i + 1]);
            }
        }
    }
}

/// The metadata of a table, as far as snapshots read it: its schemas, the id
/// of its current schema, and its snapshots.
#[derive(Clone, Debug)]
pub struct TableMetadata {
    /// The id of the table's current schema.
    pub current_schema_id: SchemaId,
    /// The schemas of the table.
    pub schemas: Vec<SchemaRef>,
    /// The snapshots of the table.
    pub snapshots: Vec<SnapshotRef>,
}

impl TableMetadata {
    /// The schema with the id `schema_id`, if the table has one.
    pub fn schema_by_id(&self, schema_id: SchemaId) -> (r: Option<&SchemaRef>)
        ensures
            r is None <==> find_schema(self.schemas@, schema_id) is None,
            r matches Some(s) ==> find_schema(self.schemas@, schema_id) == Some(*s),
    {
        let n = self.schemas.len();
        let mut i: usize = 0;
        assert(self.schemas@.skip(0) =~= self.schemas@);
        while i < n
            invariant
                n == self.schemas@.len(),
                i <= n,
                find_schema(self.schemas@, schema_id) == find_schema(self.schemas@.skip(i as int), schema_id),
            decreases n - i,
        {
            assert(self.schemas@.skip(i as int)[0] == self.schemas@[i as int]);
            assert(self.schemas@.skip(i as int).drop_first() =~= self.schemas@.skip(i + 1));
            if self.schemas[i].schema_id == schema_id {
                return Some(&self.schemas[i]);
            }
            i = i + 1;
        }
        assert(self.schemas@.skip(n as int) =~= Seq::<SchemaRef>::empty());
        None
    }

    /// The current schema of the table.
    pub fn current_schema(&self) -> (r: &SchemaRef)
        requires
            find_schema(self.schemas@, self.current_schema_id) is Some,
        ensures
            find_schema(self.schemas@, self.current_schema_id) == Some(*r),
    {
        self.schema_by_id(self.current_schema_id).unwrap()
    }

    /// The snapshot with the id `snapshot_id`, if the table has one.
    pub fn snapshot_by_id(&self, snapshot_id: i64) -> (r: Option<&SnapshotRef>)
        ensures
            r is None <==> find_snapshot(self.snapshots@, snapshot_id) is None,
            r matches Some(s) ==> find_snapshot(self.snapshots@, snapshot_id) == Some(*s),
    {
        let n = self.snapshots.len();
        let mut i: usize = 0;
        assert(self.snapshots@.skip(0) =~= self.snapshots@);
        while i < n
            invariant
                n == self.snapshots@.len(),
                i <= n,
                find_snapshot(self.snapshots@, snapshot_id) == find_snapshot(self.snapshots@.skip(i as int), snapshot_id),
            decreases n - i,
        {
            assert(self.snapshots@.skip(i as int)[0] == self.snapshots@[i as int]);
            assert(self.snapshots@.skip(i as int).drop_first() =~= self.snapshots@.skip(i + 1));
            if self.snapshots[i].snapshot_id() == snapshot_id {
                return Some(&self.snapshots[i]);
            }
            i = i + 1;
        }
        assert(self.snapshots@.skip(n as int) =~= Seq::<SnapshotRef>::empty());
        None
    }
}

} // verus!
