//! Snapshot summaries: the counters that a commit collects over the files it
//! adds and removes, the properties they become, and the running totals that
//! each new summary carries forward from the previous one.

use vstd::prelude::*;

use crate::decimal::{decimal, lemma_parse_decimal_roundtrip, parse_u64, parse_u64_spec, u64_to_string};
use crate::snapshot::Summary;
use crate::string_map::{entries_map, key_index, lemma_entries_map_finite};
use crate::string_map::StringMap;
use crate::table::{DataContentType, DataFile, PartitionSpecRef, SchemaRef};
use crate::text::{joined, join_texts, texts};

verus! {

/// Summary property: bytes of the files added.
pub const ADDED_FILE_SIZE: &'static str = "added-files-size";
/// Summary property: bytes of the files removed.
pub const REMOVED_FILE_SIZE: &'static str = "removed-files-size";
/// Summary property: data files added.
pub const ADDED_DATA_FILES: &'static str = "added-data-files";
/// Summary property: data files removed.
pub const DELETED_DATA_FILES: &'static str = "deleted-data-files";
/// Summary property: equality delete files added.
pub const ADDED_EQUALITY_DELETE_FILES: &'static str = "added-equality-delete-files";
/// Summary property: equality delete files removed.
pub const REMOVED_EQUALITY_DELETE_FILES: &'static str = "removed-equality-delete-files";
/// Summary property: position delete files added.
pub const ADDED_POSITION_DELETE_FILES: &'static str = "added-position-delete-files";
/// Summary property: position delete files removed.
pub const REMOVED_POSITION_DELETE_FILES: &'static str = "removed-position-delete-files";
/// Summary property: delete files of either kind added.
pub const ADDED_DELETE_FILES: &'static str = "added-delete-files";
/// Summary property: delete files of either kind removed.
pub const REMOVED_DELETE_FILES: &'static str = "removed-delete-files";
/// Summary property: records added.
pub const ADDED_RECORDS: &'static str = "added-records";
/// Summary property: records deleted.
pub const DELETED_RECORDS: &'static str = "deleted-records";
/// Summary property: position deletes added.
pub const ADDED_POSITION_DELETES: &'static str = "added-position-deletes";
/// Summary property: position deletes removed.
pub const REMOVED_POSITION_DELETES: &'static str = "removed-position-deletes";
/// Summary property: equality deletes added.
pub const ADDED_EQUALITY_DELETES: &'static str = "added-equality-deletes";
/// Summary property: equality deletes removed.
pub const REMOVED_EQUALITY_DELETES: &'static str = "removed-equality-deletes";
/// Summary property: equality deletes in the table.
pub const TOTAL_EQUALITY_DELETES: &'static str = "total-equality-deletes";
/// Summary property: position deletes in the table.
pub const TOTAL_POSITION_DELETES: &'static str = "total-position-deletes";
/// Summary property: data files in the table.
pub const TOTAL_DATA_FILES: &'static str = "total-data-files";
/// Summary property: delete files in the table.
pub const TOTAL_DELETE_FILES: &'static str = "total-delete-files";
/// Summary property: records in the table.
pub const TOTAL_RECORDS: &'static str = "total-records";
/// Summary property: bytes of the files in the table.
pub const TOTAL_FILE_SIZE: &'static str = "total-files-size";
/// Summary property: partitions that the commit changed.
pub const CHANGED_PARTITION_COUNT_PROP: &'static str = "changed-partition-count";
/// Prefix of the summary property of one changed partition.
pub const CHANGED_PARTITION_PREFIX: &'static str = "partitions.";

/// Length and a few characters of a property name: enough to tell every two
/// summary property names apart.
pub open spec fn property_signature(name: Seq<char>) -> (int, char, char, char) {
    (name.len() as int, name[0], name[6], name[8])
}

/// The summary property names, by length and a few of their characters; no
/// two of them share all of these, so no two of them are equal.
pub proof fn lemma_property_names()
    ensures
        property_signature(ADDED_FILE_SIZE@) == (16int, 'a', 'f', 'l'),
        property_signature(REMOVED_FILE_SIZE@) == (18int, 'r', 'd', 'f'),
        property_signature(ADDED_DATA_FILES@) == (16int, 'a', 'd', 't'),
        property_signature(DELETED_DATA_FILES@) == (18int, 'd', 'd', 'd'),
        property_signature(ADDED_EQUALITY_DELETE_FILES@) == (27int, 'a', 'e', 'u'),
        property_signature(REMOVED_EQUALITY_DELETE_FILES@) == (29int, 'r', 'd', 'e'),
        property_signature(ADDED_POSITION_DELETE_FILES@) == (27int, 'a', 'p', 's'),
        property_signature(REMOVED_POSITION_DELETE_FILES@) == (29int, 'r', 'd', 'p'),
        property_signature(ADDED_DELETE_FILES@) == (18int, 'a', 'd', 'l'),
        property_signature(REMOVED_DELETE_FILES@) == (20int, 'r', 'd', 'd'),
        property_signature(ADDED_RECORDS@) == (13int, 'a', 'r', 'c'),
        property_signature(DELETED_RECORDS@) == (15int, 'd', 'd', 'r'),
        property_signature(ADDED_POSITION_DELETES@) == (22int, 'a', 'p', 's'),
        property_signature(REMOVED_POSITION_DELETES@) == (24int, 'r', 'd', 'p'),
        property_signature(ADDED_EQUALITY_DELETES@) == (22int, 'a', 'e', 'u'),
        property_signature(REMOVED_EQUALITY_DELETES@) == (24int, 'r', 'd', 'e'),
        property_signature(TOTAL_EQUALITY_DELETES@) == (22int, 't', 'e', 'u'),
        property_signature(TOTAL_POSITION_DELETES@) == (22int, 't', 'p', 's'),
        property_signature(TOTAL_DATA_FILES@) == (16int, 't', 'd', 't'),
        property_signature(TOTAL_DELETE_FILES@) == (18int, 't', 'd', 'l'),
        property_signature(TOTAL_RECORDS@) == (13int, 't', 'r', 'c'),
        property_signature(TOTAL_FILE_SIZE@) == (16int, 't', 'f', 'l'),
        property_signature(CHANGED_PARTITION_COUNT_PROP@) == (23int, 'c', 'd', 'p'),
        property_signature(CHANGED_PARTITION_PREFIX@) == (11int, 'p', 'i', 'n'),
{
    reveal_strlit("added-files-size");
    reveal_strlit("removed-files-size");
    reveal_strlit("added-data-files");
    reveal_strlit("deleted-data-files");
    reveal_strlit("added-equality-delete-files");
    reveal_strlit("removed-equality-delete-files");
    reveal_strlit("added-position-delete-files");
    reveal_strlit("removed-position-delete-files");
    reveal_strlit("added-delete-files");
    reveal_strlit("removed-delete-files");
    reveal_strlit("added-records");
    reveal_strlit("deleted-records");
    reveal_strlit("added-position-deletes");
    reveal_strlit("removed-position-deletes");
    reveal_strlit("added-equality-deletes");
    reveal_strlit("removed-equality-deletes");
    reveal_strlit("total-equality-deletes");
    reveal_strlit("total-position-deletes");
    reveal_strlit("total-data-files");
    reveal_strlit("total-delete-files");
    reveal_strlit("total-records");
    reveal_strlit("total-files-size");
    reveal_strlit("changed-partition-count");
    reveal_strlit("partitions.");
}

/// The counters that a commit collects over the files it adds and removes,
/// for the whole table or for one partition.
#[derive(Clone, Copy, Debug)]
pub struct UpdateMetrics {
    pub added_file_size: u64,
    pub removed_file_size: u64,
    pub added_data_files: u64,
    pub removed_data_files: u64,
    pub added_eq_delete_files: u64,
    pub removed_eq_delete_files: u64,
    pub added_pos_delete_files: u64,
    pub removed_pos_delete_files: u64,
    pub added_delete_files: u64,
    pub removed_delete_files: u64,
    pub added_records: u64,
    pub deleted_records: u64,
    pub added_pos_deletes: u64,
    pub removed_pos_deletes: u64,
    pub added_eq_deletes: u64,
    pub removed_eq_deletes: u64,
}

impl View for UpdateMetrics {
    type V = UpdateMetrics;

    open spec fn view(&self) -> UpdateMetrics {
        *self
    }
}

/// All counters at zero.
pub open spec fn zero_metrics() -> UpdateMetrics {
    UpdateMetrics {
        added_file_size: 0,
        removed_file_size: 0,
        added_data_files: 0,
        removed_data_files: 0,
        added_eq_delete_files: 0,
        removed_eq_delete_files: 0,
        added_pos_delete_files: 0,
        removed_pos_delete_files: 0,
        added_delete_files: 0,
        removed_delete_files: 0,
        added_records: 0,
        deleted_records: 0,
        added_pos_deletes: 0,
        removed_pos_deletes: 0,
        added_eq_deletes: 0,
        removed_eq_deletes: 0,
    }
}

impl Default for UpdateMetrics {
    /// All counters at zero.
    fn default() -> (r: UpdateMetrics)
        ensures
            r == zero_metrics(),
    {
        UpdateMetrics {
            added_file_size: 0,
            removed_file_size: 0,
            added_data_files: 0,
            removed_data_files: 0,
            added_eq_delete_files: 0,
            removed_eq_delete_files: 0,
            added_pos_delete_files: 0,
            removed_pos_delete_files: 0,
            added_delete_files: 0,
            removed_delete_files: 0,
            added_records: 0,
            deleted_records: 0,
            added_pos_deletes: 0,
            removed_pos_deletes: 0,
            added_eq_deletes: 0,
            removed_eq_deletes: 0,
        }
    }
}

impl UpdateMetrics {
    /// Whether counting `df` as added keeps every counter within 64 bits.
    pub open spec fn can_add_file(self, df: DataFile) -> bool {
        &&& self.added_file_size + df.file_size_in_bytes <= u64::MAX
        &&& match df.content {
            DataContentType::Data => {
                &&& self.added_data_files + 1 <= u64::MAX
                &&& self.added_records + df.record_count <= u64::MAX
            },
            DataContentType::PositionDeletes => {
                &&& self.added_delete_files + 1 <= u64::MAX
                &&& self.added_pos_delete_files + 1 <= u64::MAX
                &&& self.added_pos_deletes + df.record_count <= u64::MAX
            },
            DataContentType::EqualityDeletes => {
                &&& self.added_delete_files + 1 <= u64::MAX
                &&& self.added_eq_delete_files + 1 <= u64::MAX
                &&& self.added_eq_deletes + df.record_count <= u64::MAX
            },
        }
    }

    /// The counters once `df` is counted as added: its size, one more file
    /// of its kind, and its records as records or deletes of its kind.
    pub open spec fn with_added_file(self, df: DataFile) -> UpdateMetrics {
        let m = UpdateMetrics {
            added_file_size: (self.added_file_size + df.file_size_in_bytes) as u64,
            ..self
        };
        match df.content {
            DataContentType::Data => UpdateMetrics {
                added_data_files: (m.added_data_files + 1) as u64,
                added_records: (m.added_records + df.record_count) as u64,
                ..m
            },
            DataContentType::PositionDeletes => UpdateMetrics {
                added_delete_files: (m.added_delete_files + 1) as u64,
                added_pos_delete_files: (m.added_pos_delete_files + 1) as u64,
                added_pos_deletes: (m.added_pos_deletes + df.record_count) as u64,
                ..m
            },
            DataContentType::EqualityDeletes => UpdateMetrics {
                added_delete_files: (m.added_delete_files + 1) as u64,
                added_eq_delete_files: (m.added_eq_delete_files + 1) as u64,
                added_eq_deletes: (m.added_eq_deletes + df.record_count) as u64,
                ..m
            },
        }
    }

    /// Whether counting `df` as removed keeps every counter within 64 bits.
    pub open spec fn can_remove_file(self, df: DataFile) -> bool {
        &&& self.removed_file_size + df.file_size_in_bytes <= u64::MAX
        &&& match df.content {
            DataContentType::Data => {
                &&& self.removed_data_files + 1 <= u64::MAX
                &&& self.deleted_records + df.record_count <= u64::MAX
            },
            DataContentType::PositionDeletes => {
                &&& self.removed_delete_files + 1 <= u64::MAX
                &&& self.removed_pos_delete_files + 1 <= u64::MAX
                &&& self.removed_pos_deletes + df.record_count <= u64::MAX
            },
            DataContentType::EqualityDeletes => {
                &&& self.removed_delete_files + 1 <= u64::MAX
                &&& self.removed_eq_delete_files + 1 <= u64::MAX
                &&& self.removed_eq_deletes + df.record_count <= u64::MAX
            },
        }
    }

    /// The counters once `df` is counted as removed.
    pub open spec fn with_removed_file(self, df: DataFile) -> UpdateMetrics {
        let m = UpdateMetrics {
            removed_file_size: (self.removed_file_size + df.file_size_in_bytes) as u64,
            ..self
        };
        match df.content {
            DataContentType::Data => UpdateMetrics {
                removed_data_files: (m.removed_data_files + 1) as u64,
                deleted_records: (m.deleted_records + df.record_count) as u64,
                ..m
            },
            DataContentType::PositionDeletes => UpdateMetrics {
                removed_delete_files: (m.removed_delete_files + 1) as u64,
                removed_pos_delete_files: (m.removed_pos_delete_files + 1) as u64,
                removed_pos_deletes: (m.removed_pos_deletes + df.record_count) as u64,
                ..m
            },
            DataContentType::EqualityDeletes => UpdateMetrics {
                removed_delete_files: (m.removed_delete_files + 1) as u64,
                removed_eq_delete_files: (m.removed_eq_delete_files + 1) as u64,
                removed_eq_deletes: (m.removed_eq_deletes + df.record_count) as u64,
                ..m
            },
        }
    }

    /// Counts `data_file` as added.
    pub fn add_file(&mut self, data_file: &DataFile)
        requires
            old(self).can_add_file(*data_file),
        ensures
            *final(self) == old(self).with_added_file(*data_file),
    {
        self.added_file_size = self.added_file_size + data_file.file_size_in_bytes;
        match data_file.content_type() {
            DataContentType::Data => {
                self.added_data_files = self.added_data_files + 1;
                self.added_records = self.added_records + data_file.record_count;
            },
            DataContentType::PositionDeletes => {
                self.added_delete_files = self.added_delete_files + 1;
                self.added_pos_delete_files = self.added_pos_delete_files + 1;
                self.added_pos_deletes = self.added_pos_deletes + data_file.record_count;
            },
            DataContentType::EqualityDeletes => {
                self.added_delete_files = self.added_delete_files + 1;
                self.added_eq_delete_files = self.added_eq_delete_files + 1;
                self.added_eq_deletes = self.added_eq_deletes + data_file.record_count;
            },
        }
    }

    /// Counts `data_file` as removed.
    pub fn remove_file(&mut self, data_file: &DataFile)
        requires
            old(self).can_remove_file(*data_file),
        ensures
            *final(self) == old(self).with_removed_file(*data_file),
    {
        self.removed_file_size = self.removed_file_size + data_file.file_size_in_bytes;
        match data_file.content_type() {
            DataContentType::Data => {
                self.removed_data_files = self.removed_data_files + 1;
                self.deleted_records = self.deleted_records + data_file.record_count;
            },
            DataContentType::PositionDeletes => {
                self.removed_delete_files = self.removed_delete_files + 1;
                self.removed_pos_delete_files = self.removed_pos_delete_files + 1;
                self.removed_pos_deletes = self.removed_pos_deletes + data_file.record_count;
            },
            DataContentType::EqualityDeletes => {
                self.removed_delete_files = self.removed_delete_files + 1;
                self.removed_eq_delete_files = self.removed_eq_delete_files + 1;
                self.removed_eq_deletes = self.removed_eq_deletes + data_file.record_count;
            },
        }
    }
}

/// The delete-file counters agree: delete files of either kind are the
/// position delete files plus the equality delete files, added and removed.
pub open spec fn counters_consistent(m: UpdateMetrics) -> bool {
    &&& m.added_delete_files == m.added_pos_delete_files + m.added_eq_delete_files
    &&& m.removed_delete_files == m.removed_pos_delete_files + m.removed_eq_delete_files
}

/// The number of files counted as added.
pub open spec fn files_added(m: UpdateMetrics) -> int {
    m.added_data_files + m.added_delete_files
}

/// The number of files counted as removed.
pub open spec fn files_removed(m: UpdateMetrics) -> int {
    m.removed_data_files + m.removed_delete_files
}

/// No file counted yet: the counters agree, and count no file.
pub proof fn lemma_zero_metrics_consistent()
    ensures
        counters_consistent(zero_metrics()),
        files_added(zero_metrics()) == 0,
        files_removed(zero_metrics()) == 0,
{
}

/// Counting one more added file keeps the counters in agreement and counts
/// exactly one more added file, whatever its kind.
pub proof fn lemma_add_file_consistent(m: UpdateMetrics, df: DataFile)
    requires
        counters_consistent(m),
        m.can_add_file(df),
    ensures
        counters_consistent(m.with_added_file(df)),
        files_added(m.with_added_file(df)) == files_added(m) + 1,
        files_removed(m.with_added_file(df)) == files_removed(m),
{
}

/// Counting one more removed file keeps the counters in agreement and counts
/// exactly one more removed file, whatever its kind.
pub proof fn lemma_remove_file_consistent(m: UpdateMetrics, df: DataFile)
    requires
        counters_consistent(m),
        m.can_remove_file(df),
    ensures
        counters_consistent(m.with_removed_file(df)),
        files_added(m.with_removed_file(df)) == files_added(m),
        files_removed(m.with_removed_file(df)) == files_removed(m) + 1,
{
}

/// The counters do not depend on the order in which two files are added.
pub proof fn lemma_add_files_commute(m: UpdateMetrics, a: DataFile, b: DataFile)
    requires
        m.can_add_file(a),
        m.with_added_file(a).can_add_file(b),
        m.can_add_file(b),
        m.with_added_file(b).can_add_file(a),
    ensures
        m.with_added_file(a).with_added_file(b) == m.with_added_file(b).with_added_file(a),
{
}

/// The counters do not depend on the order in which two files are removed.
pub proof fn lemma_remove_files_commute(m: UpdateMetrics, a: DataFile, b: DataFile)
    requires
        m.can_remove_file(a),
        m.with_removed_file(a).can_remove_file(b),
        m.can_remove_file(b),
        m.with_removed_file(b).can_remove_file(a),
    ensures
        m.with_removed_file(a).with_removed_file(b) == m.with_removed_file(b).with_removed_file(a),
{
}

/// The counters do not depend on whether a file is added before or after
/// another is removed.
pub proof fn lemma_add_remove_commute(m: UpdateMetrics, a: DataFile, r: DataFile)
    requires
        m.can_add_file(a),
        m.with_added_file(a).can_remove_file(r),
        m.can_remove_file(r),
        m.with_removed_file(r).can_add_file(a),
    ensures
        m.with_added_file(a).with_removed_file(r) == m.with_removed_file(r).with_added_file(a),
{
}

/// Counting a file as added raises the added-bytes counter by its size; one
/// file of its kind (data, or delete files of either kind and of its own
/// kind) is counted, its records are counted as records of its kind, and no
/// other counter moves.
pub proof fn lemma_added_file_counters(m: UpdateMetrics, df: DataFile)
    requires
        m.can_add_file(df),
    ensures
        ({
            let n = m.with_added_file(df);
            let is_data = df.content is Data;
            let is_pos = df.content is PositionDeletes;
            let is_eq = df.content is EqualityDeletes;
            &&& n.added_file_size == m.added_file_size + df.file_size_in_bytes
            &&& n.added_data_files == m.added_data_files + if is_data { 1int } else { 0int }
            &&& n.added_records == m.added_records + if is_data { df.record_count as int } else { 0int }
            &&& n.added_delete_files == m.added_delete_files + if is_data { 0int } else { 1int }
            &&& n.added_pos_delete_files == m.added_pos_delete_files + if is_pos { 1int } else { 0int }
            &&& n.added_pos_deletes == m.added_pos_deletes + if is_pos { df.record_count as int } else { 0int }
            &&& n.added_eq_delete_files == m.added_eq_delete_files + if is_eq { 1int } else { 0int }
            &&& n.added_eq_deletes == m.added_eq_deletes + if is_eq { df.record_count as int } else { 0int }
            &&& n.removed_file_size == m.removed_file_size
            &&& n.removed_data_files == m.removed_data_files
            &&& n.removed_eq_delete_files == m.removed_eq_delete_files
            &&& n.removed_pos_delete_files == m.removed_pos_delete_files
            &&& n.removed_delete_files == m.removed_delete_files
            &&& n.deleted_records == m.deleted_records
            &&& n.removed_pos_deletes == m.removed_pos_deletes
            &&& n.removed_eq_deletes == m.removed_eq_deletes
        }),
{
}

/// Counting a file as removed raises the removed-bytes counter by its size;
/// one file of its kind (data, or delete files of either kind and of its own
/// kind) is counted as removed, its records are counted as deleted records
/// or removed deletes of its kind, and no other counter moves.
pub proof fn lemma_removed_file_counters(m: UpdateMetrics, df: DataFile)
    requires
        m.can_remove_file(df),
    ensures
        ({
            let n = m.with_removed_file(df);
            let is_data = df.content is Data;
            let is_pos = df.content is PositionDeletes;
            let is_eq = df.content is EqualityDeletes;
            &&& n.removed_file_size == m.removed_file_size + df.file_size_in_bytes
            &&& n.removed_data_files == m.removed_data_files + if is_data { 1int } else { 0int }
            &&& n.deleted_records == m.deleted_records + if is_data { df.record_count as int } else { 0int }
            &&& n.removed_delete_files == m.removed_delete_files + if is_data { 0int } else { 1int }
            &&& n.removed_pos_delete_files == m.removed_pos_delete_files + if is_pos { 1int } else { 0int }
            &&& n.removed_pos_deletes == m.removed_pos_deletes + if is_pos { df.record_count as int } else { 0int }
            &&& n.removed_eq_delete_files == m.removed_eq_delete_files + if is_eq { 1int } else { 0int }
            &&& n.removed_eq_deletes == m.removed_eq_deletes + if is_eq { df.record_count as int } else { 0int }
            &&& n.added_file_size == m.added_file_size
            &&& n.added_data_files == m.added_data_files
            &&& n.added_eq_delete_files == m.added_eq_delete_files
            &&& n.added_pos_delete_files == m.added_pos_delete_files
            &&& n.added_delete_files == m.added_delete_files
            &&& n.added_records == m.added_records
            &&& n.added_pos_deletes == m.added_pos_deletes
            &&& n.added_eq_deletes == m.added_eq_deletes
        }),
{
}

/// `m` with `name` set to the decimal text of `value` when `value` is positive.
pub open spec fn put_if_positive(m: Map<Seq<char>, Seq<char>>, name: Seq<char>, value: u64) -> Map<Seq<char>, Seq<char>> {
    if value > 0 {
        m.insert(name, decimal(value as nat))
    } else {
        m
    }
}

/// The entry `name` = decimal text of `value`, when `value` is positive.
pub open spec fn positive_entry(name: Seq<char>, value: u64) -> Seq<(Seq<char>, Seq<char>)> {
    if value > 0 {
        seq![(name, decimal(value as nat))]
    } else {
        Seq::empty()
    }
}

/// Sets the property `property_name` to `value`, in decimal, when `value` is
/// positive; leaves the properties alone otherwise.
pub fn set_if_positive(properties: &mut StringMap<String>, value: u64, property_name: &str)
    ensures
        final(properties)@ == put_if_positive(old(properties)@, property_name@, value),
        !old(properties)@.contains_key(property_name@) ==> final(properties).entries() == old(
            properties,
        ).entries() + positive_entry(property_name@, value),
        value == 0 ==> final(properties).entries() == old(properties).entries(),
        value > 0 ==> match key_index(old(properties).entries(), property_name@) {
            Some(i) => final(properties).entries() == old(properties).entries().update(
                i,
                (property_name@, decimal(value as nat)),
            ),
            None => final(properties).entries() == old(properties).entries().push(
                (property_name@, decimal(value as nat)),
            ),
        },
{
    if value > 0 {
        properties.insert(String::from_str(property_name), u64_to_string(value));
    } else {
        assert(old(properties).entries() + positive_entry(property_name@, value) =~= old(properties).entries());
    }
}

/// The properties of a set of counters, in order: one per positive counter,
/// holding its decimal text.
pub open spec fn metric_entries(m: UpdateMetrics) -> Seq<(Seq<char>, Seq<char>)> {
    positive_entry(ADDED_FILE_SIZE@, m.added_file_size)
        + positive_entry(REMOVED_FILE_SIZE@, m.removed_file_size)
        + positive_entry(ADDED_DATA_FILES@, m.added_data_files)
        + positive_entry(DELETED_DATA_FILES@, m.removed_data_files)
        + positive_entry(ADDED_EQUALITY_DELETE_FILES@, m.added_eq_delete_files)
        + positive_entry(REMOVED_EQUALITY_DELETE_FILES@, m.removed_eq_delete_files)
        + positive_entry(ADDED_POSITION_DELETE_FILES@, m.added_pos_delete_files)
        + positive_entry(REMOVED_POSITION_DELETE_FILES@, m.removed_pos_delete_files)
        + positive_entry(ADDED_DELETE_FILES@, m.added_delete_files)
        + positive_entry(REMOVED_DELETE_FILES@, m.removed_delete_files)
        + positive_entry(ADDED_RECORDS@, m.added_records)
        + positive_entry(DELETED_RECORDS@, m.deleted_records)
        + positive_entry(ADDED_POSITION_DELETES@, m.added_pos_deletes)
        + positive_entry(REMOVED_POSITION_DELETES@, m.removed_pos_deletes)
        + positive_entry(ADDED_EQUALITY_DELETES@, m.added_eq_deletes)
        + positive_entry(REMOVED_EQUALITY_DELETES@, m.removed_eq_deletes)
}

/// The name of the summary property of counter `j` (0 to 15), in the order
/// in which a summary lists them.
pub open spec fn metric_name(j: int) -> Seq<char> {
    if j == 0 {
        ADDED_FILE_SIZE@
    } else if j == 1 {
        REMOVED_FILE_SIZE@
    } else if j == 2 {
        ADDED_DATA_FILES@
    } else if j == 3 {
        DELETED_DATA_FILES@
    } else if j == 4 {
        ADDED_EQUALITY_DELETE_FILES@
    } else if j == 5 {
        REMOVED_EQUALITY_DELETE_FILES@
    } else if j == 6 {
        ADDED_POSITION_DELETE_FILES@
    } else if j == 7 {
        REMOVED_POSITION_DELETE_FILES@
    } else if j == 8 {
        ADDED_DELETE_FILES@
    } else if j == 9 {
        REMOVED_DELETE_FILES@
    } else if j == 10 {
        ADDED_RECORDS@
    } else if j == 11 {
        DELETED_RECORDS@
    } else if j == 12 {
        ADDED_POSITION_DELETES@
    } else if j == 13 {
        REMOVED_POSITION_DELETES@
    } else if j == 14 {
        ADDED_EQUALITY_DELETES@
    } else {
        REMOVED_EQUALITY_DELETES@
    }
}

/// The value of counter `j` (0 to 15) of `m`.
pub open spec fn metric_value(m: UpdateMetrics, j: int) -> u64 {
    if j == 0 {
        m.added_file_size
    } else if j == 1 {
        m.removed_file_size
    } else if j == 2 {
        m.added_data_files
    } else if j == 3 {
        m.removed_data_files
    } else if j == 4 {
        m.added_eq_delete_files
    } else if j == 5 {
        m.removed_eq_delete_files
    } else if j == 6 {
        m.added_pos_delete_files
    } else if j == 7 {
        m.removed_pos_delete_files
    } else if j == 8 {
        m.added_delete_files
    } else if j == 9 {
        m.removed_delete_files
    } else if j == 10 {
        m.added_records
    } else if j == 11 {
        m.deleted_records
    } else if j == 12 {
        m.added_pos_deletes
    } else if j == 13 {
        m.removed_pos_deletes
    } else if j == 14 {
        m.added_eq_deletes
    } else {
        m.removed_eq_deletes
    }
}

/// The properties of the first `i` counters of `m`, as a map.
pub open spec fn metrics_map_upto(m: UpdateMetrics, i: int) -> Map<Seq<char>, Seq<char>>
    decreases i,
{
    if i <= 0 {
        Map::empty()
    } else {
        put_if_positive(metrics_map_upto(m, i - 1), metric_name(i - 1), metric_value(m, i - 1))
    }
}

/// The properties of a set of counters, as a map.
pub open spec fn metrics_map(m: UpdateMetrics) -> Map<Seq<char>, Seq<char>> {
    metrics_map_upto(m, 16)
}

/// No two counters share a property name.
proof fn lemma_metric_names_distinct()
    ensures
        forall|a: int, b: int| 0 <= a < 16 && 0 <= b < 16 && a != b ==> #[trigger] metric_name(a) != #[trigger] metric_name(b),
{
    lemma_property_names();
}

/// The properties of the first `i` counters are named by those counters only.
proof fn lemma_metrics_map_upto_domain(m: UpdateMetrics, i: int, k: Seq<char>)
    requires
        metrics_map_upto(m, i).contains_key(k),
    ensures
        exists|j: int| 0 <= j < i && k == #[trigger] metric_name(j),
    decreases i,
{
    if i > 0 && !(k == metric_name(i - 1)) {
        lemma_metrics_map_upto_domain(m, i - 1, k);
    }
}

/// The property of counter `k` is not among those of the counters before it.
proof fn lemma_metric_name_fresh(m: UpdateMetrics, k: int)
    requires
        0 <= k < 16,
    ensures
        !metrics_map_upto(m, k).contains_key(metric_name(k)),
{
    lemma_metric_names_distinct();
    if metrics_map_upto(m, k).contains_key(metric_name(k)) {
        lemma_metrics_map_upto_domain(m, k, metric_name(k));
    }
}

/// Counter `j` is set in the properties of the first `i` counters exactly
/// when it is positive, to its decimal text.
proof fn lemma_metrics_map_upto_value(m: UpdateMetrics, i: int, j: int)
    requires
        0 <= j < i <= 16,
    ensures
        metrics_map_upto(m, i).contains_key(metric_name(j)) == (metric_value(m, j) > 0),
        metric_value(m, j) > 0 ==> metrics_map_upto(m, i)[metric_name(j)] == decimal(metric_value(m, j) as nat),
    decreases i,
{
    lemma_metric_names_distinct();
    if i == j + 1 {
        if metrics_map_upto(m, j).contains_key(metric_name(j)) {
            lemma_metrics_map_upto_domain(m, j, metric_name(j));
        }
    } else {
        lemma_metrics_map_upto_value(m, i - 1, j);
        assert(metric_name(i - 1) != metric_name(j));
    }
}

/// What the properties of a set of counters hold reads back as those
/// counters: every property is a number, and each counter reads as its own
/// value (a counter at zero has no property and reads as 0). So the totals
/// of a later summary count exactly what a collector counted.
pub proof fn lemma_metrics_map_counters(m: UpdateMetrics)
    ensures
        counter_readable(metrics_map(m), ADDED_FILE_SIZE@),
        property_counter(metrics_map(m), ADDED_FILE_SIZE@) == m.added_file_size,
        counter_readable(metrics_map(m), REMOVED_FILE_SIZE@),
        property_counter(metrics_map(m), REMOVED_FILE_SIZE@) == m.removed_file_size,
        counter_readable(metrics_map(m), ADDED_DATA_FILES@),
        property_counter(metrics_map(m), ADDED_DATA_FILES@) == m.added_data_files,
        counter_readable(metrics_map(m), DELETED_DATA_FILES@),
        property_counter(metrics_map(m), DELETED_DATA_FILES@) == m.removed_data_files,
        counter_readable(metrics_map(m), ADDED_EQUALITY_DELETE_FILES@),
        property_counter(metrics_map(m), ADDED_EQUALITY_DELETE_FILES@) == m.added_eq_delete_files,
        counter_readable(metrics_map(m), REMOVED_EQUALITY_DELETE_FILES@),
        property_counter(metrics_map(m), REMOVED_EQUALITY_DELETE_FILES@) == m.removed_eq_delete_files,
        counter_readable(metrics_map(m), ADDED_POSITION_DELETE_FILES@),
        property_counter(metrics_map(m), ADDED_POSITION_DELETE_FILES@) == m.added_pos_delete_files,
        counter_readable(metrics_map(m), REMOVED_POSITION_DELETE_FILES@),
        property_counter(metrics_map(m), REMOVED_POSITION_DELETE_FILES@) == m.removed_pos_delete_files,
        counter_readable(metrics_map(m), ADDED_DELETE_FILES@),
        property_counter(metrics_map(m), ADDED_DELETE_FILES@) == m.added_delete_files,
        counter_readable(metrics_map(m), REMOVED_DELETE_FILES@),
        property_counter(metrics_map(m), REMOVED_DELETE_FILES@) == m.removed_delete_files,
        counter_readable(metrics_map(m), ADDED_RECORDS@),
        property_counter(metrics_map(m), ADDED_RECORDS@) == m.added_records,
        counter_readable(metrics_map(m), DELETED_RECORDS@),
        property_counter(metrics_map(m), DELETED_RECORDS@) == m.deleted_records,
        counter_readable(metrics_map(m), ADDED_POSITION_DELETES@),
        property_counter(metrics_map(m), ADDED_POSITION_DELETES@) == m.added_pos_deletes,
        counter_readable(metrics_map(m), REMOVED_POSITION_DELETES@),
        property_counter(metrics_map(m), REMOVED_POSITION_DELETES@) == m.removed_pos_deletes,
        counter_readable(metrics_map(m), ADDED_EQUALITY_DELETES@),
        property_counter(metrics_map(m), ADDED_EQUALITY_DELETES@) == m.added_eq_deletes,
        counter_readable(metrics_map(m), REMOVED_EQUALITY_DELETES@),
        property_counter(metrics_map(m), REMOVED_EQUALITY_DELETES@) == m.removed_eq_deletes,
{
    lemma_property_names();
    lemma_metrics_map_upto_value(m, 16, 0);
    lemma_parse_decimal_roundtrip(m.added_file_size);
    lemma_metrics_map_upto_value(m, 16, 1);
    lemma_parse_decimal_roundtrip(m.removed_file_size);
    lemma_metrics_map_upto_value(m, 16, 2);
    lemma_parse_decimal_roundtrip(m.added_data_files);
    lemma_metrics_map_upto_value(m, 16, 3);
    lemma_parse_decimal_roundtrip(m.removed_data_files);
    lemma_metrics_map_upto_value(m, 16, 4);
    lemma_parse_decimal_roundtrip(m.added_eq_delete_files);
    lemma_metrics_map_upto_value(m, 16, 5);
    lemma_parse_decimal_roundtrip(m.removed_eq_delete_files);
    lemma_metrics_map_upto_value(m, 16, 6);
    lemma_parse_decimal_roundtrip(m.added_pos_delete_files);
    lemma_metrics_map_upto_value(m, 16, 7);
    lemma_parse_decimal_roundtrip(m.removed_pos_delete_files);
    lemma_metrics_map_upto_value(m, 16, 8);
    lemma_parse_decimal_roundtrip(m.added_delete_files);
    lemma_metrics_map_upto_value(m, 16, 9);
    lemma_parse_decimal_roundtrip(m.removed_delete_files);
    lemma_metrics_map_upto_value(m, 16, 10);
    lemma_parse_decimal_roundtrip(m.added_records);
    lemma_metrics_map_upto_value(m, 16, 11);
    lemma_parse_decimal_roundtrip(m.deleted_records);
    lemma_metrics_map_upto_value(m, 16, 12);
    lemma_parse_decimal_roundtrip(m.added_pos_deletes);
    lemma_metrics_map_upto_value(m, 16, 13);
    lemma_parse_decimal_roundtrip(m.removed_pos_deletes);
    lemma_metrics_map_upto_value(m, 16, 14);
    lemma_parse_decimal_roundtrip(m.added_eq_deletes);
    lemma_metrics_map_upto_value(m, 16, 15);
    lemma_parse_decimal_roundtrip(m.removed_eq_deletes);
}

impl UpdateMetrics {
    /// The summary properties of these counters: one per positive counter.
    pub fn to_map(&self) -> (r: StringMap<String>)
        ensures
            r.entries() == metric_entries(*self),
            r@ == metrics_map(*self),
    {
        let mut properties = StringMap::new();
        assert(properties@ == metrics_map_upto(*self, 0));
        proof { lemma_metric_name_fresh(*self, 0); }
        set_if_positive(&mut properties, self.added_file_size, ADDED_FILE_SIZE);
        assert(properties@ == metrics_map_upto(*self, 1));
        proof { lemma_metric_name_fresh(*self, 1); }
        set_if_positive(&mut properties, self.removed_file_size, REMOVED_FILE_SIZE);
        assert(properties@ == metrics_map_upto(*self, 2));
        proof { lemma_metric_name_fresh(*self, 2); }
        set_if_positive(&mut properties, self.added_data_files, ADDED_DATA_FILES);
        assert(properties@ == metrics_map_upto(*self, 3));
        proof { lemma_metric_name_fresh(*self, 3); }
        set_if_positive(&mut properties, self.removed_data_files, DELETED_DATA_FILES);
        assert(properties@ == metrics_map_upto(*self, 4));
        proof { lemma_metric_name_fresh(*self, 4); }
        set_if_positive(&mut properties, self.added_eq_delete_files, ADDED_EQUALITY_DELETE_FILES);
        assert(properties@ == metrics_map_upto(*self, 5));
        proof { lemma_metric_name_fresh(*self, 5); }
        set_if_positive(&mut properties, self.removed_eq_delete_files, REMOVED_EQUALITY_DELETE_FILES);
        assert(properties@ == metrics_map_upto(*self, 6));
        proof { lemma_metric_name_fresh(*self, 6); }
        set_if_positive(&mut properties, self.added_pos_delete_files, ADDED_POSITION_DELETE_FILES);
        assert(properties@ == metrics_map_upto(*self, 7));
        proof { lemma_metric_name_fresh(*self, 7); }
        set_if_positive(&mut properties, self.removed_pos_delete_files, REMOVED_POSITION_DELETE_FILES);
        assert(properties@ == metrics_map_upto(*self, 8));
        proof { lemma_metric_name_fresh(*self, 8); }
        set_if_positive(&mut properties, self.added_delete_files, ADDED_DELETE_FILES);
        assert(properties@ == metrics_map_upto(*self, 9));
        proof { lemma_metric_name_fresh(*self, 9); }
        set_if_positive(&mut properties, self.removed_delete_files, REMOVED_DELETE_FILES);
        assert(properties@ == metrics_map_upto(*self, 10));
        proof { lemma_metric_name_fresh(*self, 10); }
        set_if_positive(&mut properties, self.added_records, ADDED_RECORDS);
        assert(properties@ == metrics_map_upto(*self, 11));
        proof { lemma_metric_name_fresh(*self, 11); }
        set_if_positive(&mut properties, self.deleted_records, DELETED_RECORDS);
        assert(properties@ == metrics_map_upto(*self, 12));
        proof { lemma_metric_name_fresh(*self, 12); }
        set_if_positive(&mut properties, self.added_pos_deletes, ADDED_POSITION_DELETES);
        assert(properties@ == metrics_map_upto(*self, 13));
        proof { lemma_metric_name_fresh(*self, 13); }
        set_if_positive(&mut properties, self.removed_pos_deletes, REMOVED_POSITION_DELETES);
        assert(properties@ == metrics_map_upto(*self, 14));
        proof { lemma_metric_name_fresh(*self, 14); }
        set_if_positive(&mut properties, self.added_eq_deletes, ADDED_EQUALITY_DELETES);
        assert(properties@ == metrics_map_upto(*self, 15));
        proof { lemma_metric_name_fresh(*self, 15); }
        set_if_positive(&mut properties, self.removed_eq_deletes, REMOVED_EQUALITY_DELETES);
        assert(properties@ == metrics_map_upto(*self, 16));
        assert(properties.entries() =~= metric_entries(*self));
        properties
    }
}

/// The text of the changes to one partition: its properties as
/// `name=value`, separated by commas.
pub open spec fn partition_summary(m: UpdateMetrics) -> Seq<char> {
    joined(metric_entries(m).map_values(|e: (Seq<char>, Seq<char>)| e.0 + "="@ + e.1), ","@)
}

/// The summary property that holds the changes to the partition at `path`.
pub open spec fn partition_property_key(path: Seq<char>) -> Seq<char> {
    CHANGED_PARTITION_PREFIX@ + path
}

/// The properties of the changed partitions: for each partition whose
/// changes are not empty, its key holds the text of its changes.
pub open spec fn partition_properties(partitions: Map<Seq<char>, UpdateMetrics>) -> Map<Seq<char>, Seq<char>> {
    let n = CHANGED_PARTITION_PREFIX@.len();
    Map::new(
        |k: Seq<char>|
            k.len() >= n && k.take(n as int) == CHANGED_PARTITION_PREFIX@ && partitions.contains_key(
                k.skip(n as int),
            ) && partition_summary(partitions[k.skip(n as int)]).len() > 0,
        |k: Seq<char>| partition_summary(partitions[k.skip(n as int)]),
    )
}

/// The properties that a collector builds: those of the table-wide counters,
/// the count of changed partitions when positive, and, when that count is
/// within `limit`, the properties of each changed partition.
pub open spec fn summary_properties(
    metrics: UpdateMetrics,
    partitions: Map<Seq<char>, UpdateMetrics>,
    limit: u64,
) -> Map<Seq<char>, Seq<char>> {
    let base = put_if_positive(metrics_map(metrics), CHANGED_PARTITION_COUNT_PROP@, partitions.len() as u64);
    if partitions.len() <= limit {
        base.union_prefer_right(partition_properties(partitions))
    } else {
        base
    }
}

/// The counters of the partition at `path`, or zeros if it has none yet.
pub open spec fn metrics_at(partitions: Map<Seq<char>, UpdateMetrics>, path: Seq<char>) -> UpdateMetrics {
    if partitions.contains_key(path) {
        partitions[path]
    } else {
        zero_metrics()
    }
}

/// The pair that counter `j` of `m` contributes: its property name and the
/// decimal text of its value.
pub open spec fn counter_pair(m: UpdateMetrics, j: int) -> (Seq<char>, Seq<char>) {
    (metric_name(j), decimal(metric_value(m, j) as nat))
}

/// The entries of the positive ones among the first `i` counters of `m`.
spec fn metric_entries_upto(m: UpdateMetrics, i: int) -> Seq<(Seq<char>, Seq<char>)>
    decreases i,
{
    if i <= 0 {
        Seq::empty()
    } else {
        metric_entries_upto(m, i - 1) + positive_entry(metric_name(i - 1), metric_value(m, i - 1))
    }
}

/// The entries of a set of counters are those of its sixteen counters, in turn.
proof fn lemma_metric_entries_upto(m: UpdateMetrics)
    ensures
        metric_entries(m) == metric_entries_upto(m, 16),
{
    assert(metric_entries_upto(m, 0) == Seq::<(Seq<char>, Seq<char>)>::empty());
    assert(metric_entries_upto(m, 1) == metric_entries_upto(m, 0) + positive_entry(metric_name(0), metric_value(m, 0)));
    assert(metric_entries_upto(m, 2) == metric_entries_upto(m, 1) + positive_entry(metric_name(1), metric_value(m, 1)));
    assert(metric_entries_upto(m, 3) == metric_entries_upto(m, 2) + positive_entry(metric_name(2), metric_value(m, 2)));
    assert(metric_entries_upto(m, 4) == metric_entries_upto(m, 3) + positive_entry(metric_name(3), metric_value(m, 3)));
    assert(metric_entries_upto(m, 5) == metric_entries_upto(m, 4) + positive_entry(metric_name(4), metric_value(m, 4)));
    assert(metric_entries_upto(m, 6) == metric_entries_upto(m, 5) + positive_entry(metric_name(5), metric_value(m, 5)));
    assert(metric_entries_upto(m, 7) == metric_entries_upto(m, 6) + positive_entry(metric_name(6), metric_value(m, 6)));
    assert(metric_entries_upto(m, 8) == metric_entries_upto(m, 7) + positive_entry(metric_name(7), metric_value(m, 7)));
    assert(metric_entries_upto(m, 9) == metric_entries_upto(m, 8) + positive_entry(metric_name(8), metric_value(m, 8)));
    assert(metric_entries_upto(m, 10) == metric_entries_upto(m, 9) + positive_entry(metric_name(9), metric_value(m, 9)));
    assert(metric_entries_upto(m, 11) == metric_entries_upto(m, 10) + positive_entry(metric_name(10), metric_value(m, 10)));
    assert(metric_entries_upto(m, 12) == metric_entries_upto(m, 11) + positive_entry(metric_name(11), metric_value(m, 11)));
    assert(metric_entries_upto(m, 13) == metric_entries_upto(m, 12) + positive_entry(metric_name(12), metric_value(m, 12)));
    assert(metric_entries_upto(m, 14) == metric_entries_upto(m, 13) + positive_entry(metric_name(13), metric_value(m, 13)));
    assert(metric_entries_upto(m, 15) == metric_entries_upto(m, 14) + positive_entry(metric_name(14), metric_value(m, 14)));
    assert(metric_entries_upto(m, 16) == metric_entries_upto(m, 15) + positive_entry(metric_name(15), metric_value(m, 15)));
    assert(metric_entries(m) =~= metric_entries_upto(m, 16));
}

/// An entry is among those of the first `i` counters exactly when it is the
/// pair of one of them that is positive.
proof fn lemma_metric_entries_upto_members(m: UpdateMetrics, i: int)
    requires
        0 <= i <= 16,
    ensures
        forall|e: (Seq<char>, Seq<char>)| #[trigger] metric_entries_upto(m, i).contains(e) <==> (exists|j: int|
            0 <= j < i && metric_value(m, j) > 0 && e == counter_pair(m, j)),
    decreases i,
{
    if i > 0 {
        lemma_metric_entries_upto_members(m, i - 1);
        let prev = metric_entries_upto(m, i - 1);
        let last = positive_entry(metric_name(i - 1), metric_value(m, i - 1));
        assert forall|e: (Seq<char>, Seq<char>)| #[trigger] metric_entries_upto(m, i).contains(e) <==> (exists|j: int|
            0 <= j < i && metric_value(m, j) > 0 && e == counter_pair(m, j)) by {
            let all = prev + last;
            if all.contains(e) {
                let k = choose|k: int| 0 <= k < all.len() && all[k] == e;
                if k < prev.len() {
                    assert(prev[k] == e);
                    assert(prev.contains(e));
                } else {
                    assert(last[k - prev.len()] == e);
                    assert(e == counter_pair(m, i - 1));
                }
            }
            if exists|j: int| 0 <= j < i && metric_value(m, j) > 0 && e == counter_pair(m, j) {
                let j = choose|j: int| 0 <= j < i && metric_value(m, j) > 0 && e == counter_pair(m, j);
                if j < i - 1 {
                    assert(prev.contains(e));
                    let k = choose|k: int| 0 <= k < prev.len() && prev[k] == e;
                    assert(all[k] == e);
                } else {
                    assert(all[prev.len() as int] == e);
                }
            }
        }
    }
}

/// A text joined from parts is at least as long as its last part.
proof fn lemma_joined_len(parts: Seq<Seq<char>>, sep: Seq<char>)
    requires
        parts.len() > 0,
    ensures
        joined(parts, sep).len() >= parts.last().len(),
{
}

/// Whether the text of the changes to a partition is made of the pairs
/// `es`, as `name=value` parts separated by commas, where `es` holds the pair
/// of each positive counter of `m` and nothing else.
pub open spec fn summary_lists_counters(m: UpdateMetrics, es: Seq<(Seq<char>, Seq<char>)>) -> bool {
    &&& partition_summary(m) == joined(es.map_values(|e: (Seq<char>, Seq<char>)| e.0 + "="@ + e.1), ","@)
    &&& forall|j: int| 0 <= j < 16 ==> (es.contains(#[trigger] counter_pair(m, j)) <==> metric_value(m, j) > 0)
    &&& forall|e: (Seq<char>, Seq<char>)| #[trigger] es.contains(e) ==> exists|j: int|
        0 <= j < 16 && metric_value(m, j) > 0 && e == counter_pair(m, j)
}

/// The text of the changes to a partition lists, as `name=value` parts
/// separated by commas, the pair of each positive counter and nothing else:
/// every positive counter's pair is there, and no pair of a counter at zero.
pub proof fn lemma_partition_summary_lists_counters(m: UpdateMetrics)
    ensures
        exists|es| #[trigger] summary_lists_counters(m, es),
{
    lemma_metric_entries_upto(m);
    lemma_metric_entries_upto_members(m, 16);
    lemma_metric_names_distinct();
    let es = metric_entries(m);
    assert forall|j: int| 0 <= j < 16 implies (es.contains(#[trigger] counter_pair(m, j)) <==> metric_value(m, j) > 0) by {
        if es.contains(counter_pair(m, j)) {
            let k = choose|k: int| 0 <= k < 16 && metric_value(m, k) > 0 && counter_pair(m, j) == counter_pair(m, k);
            assert(metric_name(j) == metric_name(k));
        }
    }
    assert(summary_lists_counters(m, es));
}

/// When the collector lists partitions and a partition has a positive
/// counter, the built properties hold that partition's property, with the
/// text of its changes.
pub proof fn lemma_summary_lists_changed_partition(
    metrics: UpdateMetrics,
    partitions: Map<Seq<char>, UpdateMetrics>,
    limit: u64,
    p: Seq<char>,
    j: int,
)
    requires
        partitions.len() <= limit,
        partitions.contains_key(p),
        0 <= j < 16,
        metric_value(partitions[p], j) > 0,
    ensures
        summary_properties(metrics, partitions, limit).contains_key(partition_property_key(p)),
        summary_properties(metrics, partitions, limit)[partition_property_key(p)] == partition_summary(partitions[p]),
{
    let m = partitions[p];
    lemma_metric_entries_upto(m);
    lemma_metric_entries_upto_members(m, 16);
    let es = metric_entries(m);
    assert(es.contains(counter_pair(m, j)));
    let parts = es.map_values(|e: (Seq<char>, Seq<char>)| e.0 + "="@ + e.1);
    lemma_joined_len(parts, ","@);
    assert(parts.last() == es.last().0 + "="@ + es.last().1);
    reveal_strlit("=");
    assert(partition_summary(m).len() > 0);
    let n = CHANGED_PARTITION_PREFIX@.len();
    let key = partition_property_key(p);
    assert(key.take(n as int) =~= CHANGED_PARTITION_PREFIX@);
    assert(key.skip(n as int) =~= p);
}

/// Adding one more partition to the map adds its property, if its changes
/// are not empty.
proof fn lemma_partition_properties_insert(m: Map<Seq<char>, UpdateMetrics>, p: Seq<char>, v: UpdateMetrics)
    requires
        !m.contains_key(p),
    ensures
        partition_properties(m.insert(p, v)) == if partition_summary(v).len() > 0 {
            partition_properties(m).insert(partition_property_key(p), partition_summary(v))
        } else {
            partition_properties(m)
        },
{
    let n = CHANGED_PARTITION_PREFIX@.len();
    let key = partition_property_key(p);
    assert(key.take(n as int) =~= CHANGED_PARTITION_PREFIX@);
    assert(key.skip(n as int) =~= p);
    assert forall|k: Seq<char>| k.len() >= n && k.take(n as int) == CHANGED_PARTITION_PREFIX@ && k.skip(n as int) == p implies k == key by {
        assert(k =~= k.take(n as int) + k.skip(n as int));
    }
    if partition_summary(v).len() > 0 {
        assert(partition_properties(m.insert(p, v)) =~= partition_properties(m).insert(key, partition_summary(v)));
    } else {
        assert(partition_properties(m.insert(p, v)) =~= partition_properties(m));
    }
}

/// The text of the changes in `metrics`: its properties as `name=value`,
/// separated by commas.
fn partition_summary_text(metrics: &UpdateMetrics) -> (r: String)
    ensures
        r@ == partition_summary(*metrics),
{
    let properties = metrics.to_map();
    let n = properties.len();
    let mut parts: Vec<String> = Vec::new();
    let mut i: usize = 0;
    while i < n
        invariant
            n == properties.entries().len(),
            properties.entries() == metric_entries(*metrics),
            i <= n,
            parts@.len() == i,
            forall|j: int| 0 <= j < i ==> #[trigger] parts@[j]@ == properties.entries()[j].0 + "="@ + properties.entries()[j].1,
        decreases n - i,
    {
        let mut part = properties.key_at(i).clone();
        part.append("=");
        part.append(properties.value_at(i).as_str());
        parts.push(part);
        i = i + 1;
    }
    assert(texts(parts@) =~= metric_entries(*metrics).map_values(|e: (Seq<char>, Seq<char>)| e.0 + "="@ + e.1));
    join_texts(&parts, ",")
}

/// Each counter of a commit reads back, as a number, from the properties that
/// a collector builds: the count of changed partitions and the properties of
/// the partitions never stand in for a counter's property.
pub proof fn lemma_summary_properties_counters(
    metrics: UpdateMetrics,
    partitions: Map<Seq<char>, UpdateMetrics>,
    limit: u64,
    j: int,
)
    requires
        0 <= j < 16,
    ensures
        counter_readable(summary_properties(metrics, partitions, limit), metric_name(j)),
        property_counter(summary_properties(metrics, partitions, limit), metric_name(j)) == metric_value(metrics, j),
{
    lemma_property_names();
    reveal_strlit("partitions.");
    lemma_metrics_map_upto_value(metrics, 16, j);
    lemma_parse_decimal_roundtrip(metric_value(metrics, j));
    let name = metric_name(j);
    assert(name != CHANGED_PARTITION_COUNT_PROP@);
    assert(!partition_properties(partitions).contains_key(name)) by {
        let n = CHANGED_PARTITION_PREFIX@.len();
        if name.len() >= n && name.take(n as int) == CHANGED_PARTITION_PREFIX@ {
            assert(name.take(n as int)[0] == name[0]);
        }
    }
}

/// Collects the counters of a commit over the files it adds and removes, for
/// the whole table and for each partition, and builds the summary properties.
pub struct SnapshotSummaryCollector {
    metrics: UpdateMetrics,
    partition_metrics: StringMap<UpdateMetrics>,
    max_changed_partitions_for_summaries: u64,
}

impl SnapshotSummaryCollector {
    /// The table-wide counters.
    pub closed spec fn metrics_view(&self) -> UpdateMetrics {
        self.metrics
    }

    /// The counters of each partition, by partition path.
    pub closed spec fn partitions_view(&self) -> Map<Seq<char>, UpdateMetrics> {
        self.partition_metrics@
    }

    /// A collector holds counters for finitely many partitions.
    pub proof fn lemma_partitions_finite(&self)
        ensures
            self.partitions_view().dom().finite(),
    {
        lemma_entries_map_finite(self.partition_metrics.entries());
    }

    /// The largest number of changed partitions whose properties a summary lists.
    pub closed spec fn partition_limit(&self) -> u64 {
        self.max_changed_partitions_for_summaries
    }

    /// Sets the largest number of changed partitions whose properties a
    /// summary lists.
    pub fn set_partition_summary_limit(&mut self, limit: u64)
        ensures
            final(self).partition_limit() == limit,
            final(self).partitions_view().dom().finite(),
            final(self).metrics_view() == old(self).metrics_view(),
            final(self).partitions_view() == old(self).partitions_view(),
    {
        self.max_changed_partitions_for_summaries = limit;
        proof { lemma_entries_map_finite(self.partition_metrics.entries()); }
    }

    /// Counts `data_file` as added, for the table and, when the file is
    /// partitioned, for its partition.
    pub fn add_file(&mut self, data_file: &DataFile, schema: SchemaRef, partition_spec: PartitionSpecRef)
        requires
            old(self).metrics_view().can_add_file(*data_file),
            data_file.partition.values_view().len() > 0 ==> {
                &&& data_file.partition.values_view().len() >= partition_spec.fields@.len()
                &&& metrics_at(old(self).partitions_view(), partition_spec.partition_path(&data_file.partition)).can_add_file(*data_file)
            },
        ensures
            final(self).metrics_view() == old(self).metrics_view().with_added_file(*data_file),
            final(self).partition_limit() == old(self).partition_limit(),
            final(self).partitions_view().dom().finite(),
            final(self).partitions_view() == if data_file.partition.values_view().len() > 0 {
                let path = partition_spec.partition_path(&data_file.partition);
                old(self).partitions_view().insert(path, metrics_at(old(self).partitions_view(), path).with_added_file(*data_file))
            } else {
                old(self).partitions_view()
            },
    {
        self.metrics.add_file(data_file);
        if data_file.partition.len() > 0 {
            self.update_partition_metrics(schema, partition_spec, data_file, true);
        }
        proof { lemma_entries_map_finite(self.partition_metrics.entries()); }
    }

    /// Counts `data_file` as removed, for the table and, when the file is
    /// partitioned, for its partition.
    pub fn remove_file(&mut self, data_file: &DataFile, schema: SchemaRef, partition_spec: PartitionSpecRef)
        requires
            old(self).metrics_view().can_remove_file(*data_file),
            data_file.partition.values_view().len() > 0 ==> {
                &&& data_file.partition.values_view().len() >= partition_spec.fields@.len()
                &&& metrics_at(old(self).partitions_view(), partition_spec.partition_path(&data_file.partition)).can_remove_file(*data_file)
            },
        ensures
            final(self).metrics_view() == old(self).metrics_view().with_removed_file(*data_file),
            final(self).partition_limit() == old(self).partition_limit(),
            final(self).partitions_view().dom().finite(),
            final(self).partitions_view() == if data_file.partition.values_view().len() > 0 {
                let path = partition_spec.partition_path(&data_file.partition);
                old(self).partitions_view().insert(path, metrics_at(old(self).partitions_view(), path).with_removed_file(*data_file))
            } else {
                old(self).partitions_view()
            },
    {
        self.metrics.remove_file(data_file);
        if data_file.partition.len() > 0 {
            self.update_partition_metrics(schema, partition_spec, data_file, false);
        }
        proof { lemma_entries_map_finite(self.partition_metrics.entries()); }
    }

    /// Counts `data_file` as added (`is_add_file`) or removed for its
    /// partition only, starting the partition's counters at zero if it has none.
    pub fn update_partition_metrics(
        &mut self,
        schema: SchemaRef,
        partition_spec: PartitionSpecRef,
        data_file: &DataFile,
        is_add_file: bool,
    )
        requires
            data_file.partition.values_view().len() >= partition_spec.fields@.len(),
            is_add_file ==> metrics_at(old(self).partitions_view(), partition_spec.partition_path(&data_file.partition)).can_add_file(*data_file),
            !is_add_file ==> metrics_at(old(self).partitions_view(), partition_spec.partition_path(&data_file.partition)).can_remove_file(*data_file),
        ensures
            final(self).metrics_view() == old(self).metrics_view(),
            final(self).partition_limit() == old(self).partition_limit(),
            final(self).partitions_view().dom().finite(),
            final(self).partitions_view() == ({
                let path = partition_spec.partition_path(&data_file.partition);
                let current = metrics_at(old(self).partitions_view(), path);
                old(self).partitions_view().insert(
                    path,
                    if is_add_file {
                        current.with_added_file(*data_file)
                    } else {
                        current.with_removed_file(*data_file)
                    },
                )
            }),
    {
        let partition_path = partition_spec.partition_to_path(&data_file.partition, schema);
        let mut metrics = match self.partition_metrics.get(partition_path.as_str()) {
            Some(m) => *m,
            None => UpdateMetrics::default(),
        };
        if is_add_file {
            metrics.add_file(data_file);
        } else {
            metrics.remove_file(data_file);
        }
        self.partition_metrics.insert(partition_path, metrics);
        proof { lemma_entries_map_finite(self.partition_metrics.entries()); }
    }

    /// The summary properties of the commit: those of the table-wide
    /// counters, the number of changed partitions when positive, and, when
    /// that number is within the limit, one property per changed partition
    /// listing its changes.
    pub fn build(&self) -> (r: StringMap<String>)
        ensures
            r@ == summary_properties(self.metrics_view(), self.partitions_view(), self.partition_limit()),
    {
        let mut properties = self.metrics.to_map();
        let changed_partitions_count = self.partition_metrics.len() as u64;
        set_if_positive(&mut properties, changed_partitions_count, CHANGED_PARTITION_COUNT_PROP);
        if changed_partitions_count <= self.max_changed_partitions_for_summaries {
            let ghost base = properties@;
            let n = self.partition_metrics.len();
            let mut i: usize = 0;
            assert(self.partition_metrics.entries().take(0) =~= Seq::<(Seq<char>, UpdateMetrics)>::empty());
            assert(partition_properties(Map::empty()) =~= Map::empty());
            assert(base.union_prefer_right(Map::empty()) =~= base);
            while i < n
                invariant
                    n == self.partition_metrics.entries().len(),
                    i <= n,
                    properties@ == base.union_prefer_right(
                        partition_properties(entries_map(self.partition_metrics.entries().take(i as int))),
                    ),
                decreases n - i,
            {
                let ghost done = entries_map(self.partition_metrics.entries().take(i as int));
                let partition_path = self.partition_metrics.key_at(i);
                let partition_metrics = self.partition_metrics.value_at(i);
                let mut property_key = String::from_str(CHANGED_PARTITION_PREFIX);
                property_key.append(partition_path.as_str());
                let partition_summary = partition_summary_text(partition_metrics);
                proof {
                    let e = self.partition_metrics.entries();
                    assert(e.take(i + 1).drop_last() =~= e.take(i as int));
                    assert(e.take(i + 1).last() == e[i as int]);
                    assert(!done.contains_key(e[i as int].0)) by {
                        crate::string_map::lemma_entries_map_domain(e.take(i as int));
                        if done.contains_key(e[i as int].0) {
                            let j = choose|j: int| 0 <= j < i && e.take(i as int)[j].0 == e[i as int].0;
                            assert(e[j].0 != e[i as int].0);
                        }
                    }
                    lemma_partition_properties_insert(done, e[i as int].0, e[i as int].1);
                }
                if partition_summary.as_str().unicode_len() > 0 {
                    properties.insert(property_key, partition_summary);
                    proof {
                        let e = self.partition_metrics.entries();
                        let pp = partition_properties(done);
                        assert(base.union_prefer_right(pp).insert(partition_property_key(e[i as int].0), partition_summary@)
                            =~= base.union_prefer_right(pp.insert(partition_property_key(e[i as int].0), partition_summary@)));
                    }
                }
                i = i + 1;
            }
            assert(self.partition_metrics.entries().take(n as int) =~= self.partition_metrics.entries());
        }
        properties
    }
}

impl Default for SnapshotSummaryCollector {
    /// No files counted, and no partition properties in summaries.
    fn default() -> (r: SnapshotSummaryCollector)
        ensures
            r.metrics_view() == zero_metrics(),
            r.partitions_view() == Map::<Seq<char>, UpdateMetrics>::empty(),
            r.partition_limit() == 0,
            r.partitions_view().dom().finite(),
    {
        let r = SnapshotSummaryCollector {
            metrics: UpdateMetrics::default(),
            partition_metrics: StringMap::new(),
            max_changed_partitions_for_summaries: 0,
        };
        proof { lemma_entries_map_finite(r.partition_metrics.entries()); }
        r
    }
}

/// Whether the property `key`, if present, holds a number.
pub open spec fn counter_readable(props: Map<Seq<char>, Seq<char>>, key: Seq<char>) -> bool {
    props.contains_key(key) ==> parse_u64_spec(props[key]) is Some
}

/// The number that the property `key` holds, or 0 if it is absent.
pub open spec fn property_counter(props: Map<Seq<char>, Seq<char>>, key: Seq<char>) -> int {
    if props.contains_key(key) {
        match parse_u64_spec(props[key]) {
            Some(v) => v as int,
            None => 0,
        }
    } else {
        0
    }
}

/// The properties of a summary, if there is one.
pub open spec fn summary_properties_of(summary: Option<&Summary>) -> Option<Map<Seq<char>, Seq<char>>> {
    match summary {
        Some(s) => Some(s.additional_properties@),
        None => None,
    }
}

/// The number that the previous summary holds under `key`; 0 without a
/// previous summary or without the property.
pub open spec fn previous_counter(previous: Option<Map<Seq<char>, Seq<char>>>, key: Seq<char>) -> int {
    match previous {
        Some(p) => property_counter(p, key),
        None => 0,
    }
}

/// The new value of the total `total`: the previous total, plus what
/// `added` counts, minus what `removed` counts.
pub open spec fn new_total(
    props: Map<Seq<char>, Seq<char>>,
    previous: Option<Map<Seq<char>, Seq<char>>>,
    total: Seq<char>,
    added: Seq<char>,
    removed: Seq<char>,
) -> int {
    previous_counter(previous, total) + property_counter(props, added) - property_counter(props, removed)
}

/// Whether the new total can be computed: the properties it reads hold
/// numbers, the sum stays within 64 bits, and the difference is not negative.
pub open spec fn total_computable(
    props: Map<Seq<char>, Seq<char>>,
    previous: Option<Map<Seq<char>, Seq<char>>>,
    total: Seq<char>,
    added: Seq<char>,
    removed: Seq<char>,
) -> bool {
    &&& counter_readable(props, added)
    &&& counter_readable(props, removed)
    &&& (previous matches Some(p) ==> counter_readable(p, total))
    &&& previous_counter(previous, total) + property_counter(props, added) <= u64::MAX
    &&& new_total(props, previous, total, added, removed) >= 0
}

/// Sets `total_property` of the summary to the previous summary's total, plus
/// the summary's `added_property`, minus its `removed_property`.
pub fn update_totals(
    summary: &mut Summary,
    previous_summary: Option<&Summary>,
    total_property: &str,
    added_property: &str,
    removed_property: &str,
)
    requires
        total_computable(
            old(summary).additional_properties@,
            summary_properties_of(previous_summary),
            total_property@,
            added_property@,
            removed_property@,
        ),
    ensures
        final(summary).operation == old(summary).operation,
        final(summary).additional_properties@ == old(summary).additional_properties@.insert(
            total_property@,
            decimal(
                new_total(
                    old(summary).additional_properties@,
                    summary_properties_of(previous_summary),
                    total_property@,
                    added_property@,
                    removed_property@,
                ) as nat,
            ),
        ),
{
    let previous_total: u64 = match previous_summary {
        Some(previous_summary) => match previous_summary.additional_properties.get(total_property) {
            Some(value) => parse_u64(value.as_str()).unwrap(),
            None => 0,
        },
        None => 0,
    };
    let mut new_total: u64 = previous_total;
    if let Some(value) = summary.additional_properties.get(added_property) {
        let value = parse_u64(value.as_str()).unwrap();
        new_total = new_total + value;
    }
    if let Some(value) = summary.additional_properties.get(removed_property) {
        let value = parse_u64(value.as_str()).unwrap();
        new_total = new_total - value;
    }
    summary.additional_properties.insert(String::from_str(total_property), u64_to_string(new_total));
}

/// Setting a total a second time, from the same previous summary and the
/// same properties, changes nothing: the total is read from neither the
/// added nor the removed property, so it comes out the same.
pub proof fn lemma_total_update_idempotent(
    props: Map<Seq<char>, Seq<char>>,
    previous: Option<Map<Seq<char>, Seq<char>>>,
    total: Seq<char>,
    added: Seq<char>,
    removed: Seq<char>,
)
    requires
        total_computable(props, previous, total, added, removed),
        total != added,
        total != removed,
    ensures
        ({
            let once = props.insert(total, total_text(props, previous, total, added, removed));
            &&& total_computable(once, previous, total, added, removed)
            &&& once.insert(total, total_text(once, previous, total, added, removed)) == once
        }),
{
    let once = props.insert(total, total_text(props, previous, total, added, removed));
    assert(property_counter(once, added) == property_counter(props, added));
    assert(property_counter(once, removed) == property_counter(props, removed));
    assert(once.insert(total, total_text(once, previous, total, added, removed)) =~= once);
}

/// The decimal text of the new total `total`.
pub open spec fn total_text(
    props: Map<Seq<char>, Seq<char>>,
    previous: Option<Map<Seq<char>, Seq<char>>>,
    total: Seq<char>,
    added: Seq<char>,
    removed: Seq<char>,
) -> Seq<char> {
    decimal(new_total(props, previous, total, added, removed) as nat)
}

/// Whether all six totals of a new summary can be computed.
pub open spec fn totals_computable(
    props: Map<Seq<char>, Seq<char>>,
    previous: Option<Map<Seq<char>, Seq<char>>>,
) -> bool {
    &&& total_computable(props, previous, TOTAL_DATA_FILES@, ADDED_DATA_FILES@, DELETED_DATA_FILES@)
    &&& total_computable(props, previous, TOTAL_DELETE_FILES@, ADDED_DELETE_FILES@, REMOVED_DELETE_FILES@)
    &&& total_computable(props, previous, TOTAL_RECORDS@, ADDED_RECORDS@, DELETED_RECORDS@)
    &&& total_computable(props, previous, TOTAL_FILE_SIZE@, ADDED_FILE_SIZE@, REMOVED_FILE_SIZE@)
    &&& total_computable(props, previous, TOTAL_POSITION_DELETES@, ADDED_POSITION_DELETES@, REMOVED_POSITION_DELETES@)
    &&& total_computable(props, previous, TOTAL_EQUALITY_DELETES@, TOTAL_EQUALITY_DELETES@, REMOVED_EQUALITY_DELETES@)
}

/// The properties of a new summary with its six totals set. The total of
/// equality deletes counts the summary's own `total-equality-deletes` as
/// what was added.
pub open spec fn with_totals(
    props: Map<Seq<char>, Seq<char>>,
    previous: Option<Map<Seq<char>, Seq<char>>>,
) -> Map<Seq<char>, Seq<char>> {
    props.insert(
        TOTAL_DATA_FILES@,
        total_text(props, previous, TOTAL_DATA_FILES@, ADDED_DATA_FILES@, DELETED_DATA_FILES@),
    ).insert(
        TOTAL_DELETE_FILES@,
        total_text(props, previous, TOTAL_DELETE_FILES@, ADDED_DELETE_FILES@, REMOVED_DELETE_FILES@),
    ).insert(
        TOTAL_RECORDS@,
        total_text(props, previous, TOTAL_RECORDS@, ADDED_RECORDS@, DELETED_RECORDS@),
    ).insert(
        TOTAL_FILE_SIZE@,
        total_text(props, previous, TOTAL_FILE_SIZE@, ADDED_FILE_SIZE@, REMOVED_FILE_SIZE@),
    ).insert(
        TOTAL_POSITION_DELETES@,
        total_text(props, previous, TOTAL_POSITION_DELETES@, ADDED_POSITION_DELETES@, REMOVED_POSITION_DELETES@),
    ).insert(
        TOTAL_EQUALITY_DELETES@,
        total_text(props, previous, TOTAL_EQUALITY_DELETES@, TOTAL_EQUALITY_DELETES@, REMOVED_EQUALITY_DELETES@),
    )
}

/// Each total of a new summary reads back as the previous summary's total,
/// plus what the summary records as added, minus what it records as
/// removed (for equality deletes, the summary's own total stands for what
/// was added); every other property is kept as it was.
pub proof fn lemma_with_totals_counters(
    props: Map<Seq<char>, Seq<char>>,
    previous: Option<Map<Seq<char>, Seq<char>>>,
)
    requires
        totals_computable(props, previous),
    ensures
        ({
            let r = with_totals(props, previous);
            &&& counter_readable(r, TOTAL_DATA_FILES@)
            &&& property_counter(r, TOTAL_DATA_FILES@) == previous_counter(previous, TOTAL_DATA_FILES@) + property_counter(props, ADDED_DATA_FILES@)
                - property_counter(props, DELETED_DATA_FILES@)
            &&& counter_readable(r, TOTAL_DELETE_FILES@)
            &&& property_counter(r, TOTAL_DELETE_FILES@) == previous_counter(previous, TOTAL_DELETE_FILES@) + property_counter(props, ADDED_DELETE_FILES@)
                - property_counter(props, REMOVED_DELETE_FILES@)
            &&& counter_readable(r, TOTAL_RECORDS@)
            &&& property_counter(r, TOTAL_RECORDS@) == previous_counter(previous, TOTAL_RECORDS@) + property_counter(props, ADDED_RECORDS@)
                - property_counter(props, DELETED_RECORDS@)
            &&& counter_readable(r, TOTAL_FILE_SIZE@)
            &&& property_counter(r, TOTAL_FILE_SIZE@) == previous_counter(previous, TOTAL_FILE_SIZE@) + property_counter(props, ADDED_FILE_SIZE@)
                - property_counter(props, REMOVED_FILE_SIZE@)
            &&& counter_readable(r, TOTAL_POSITION_DELETES@)
            &&& property_counter(r, TOTAL_POSITION_DELETES@) == previous_counter(previous, TOTAL_POSITION_DELETES@) + property_counter(props, ADDED_POSITION_DELETES@)
                - property_counter(props, REMOVED_POSITION_DELETES@)
            &&& counter_readable(r, TOTAL_EQUALITY_DELETES@)
            &&& property_counter(r, TOTAL_EQUALITY_DELETES@) == previous_counter(previous, TOTAL_EQUALITY_DELETES@) + property_counter(props, TOTAL_EQUALITY_DELETES@)
                - property_counter(props, REMOVED_EQUALITY_DELETES@)
            &&& forall|k: Seq<char>| k != TOTAL_DATA_FILES@ && k != TOTAL_DELETE_FILES@ && k != TOTAL_RECORDS@ && k != TOTAL_FILE_SIZE@ && k != TOTAL_POSITION_DELETES@ && k != TOTAL_EQUALITY_DELETES@ ==> (#[trigger] r.contains_key(k)
                == props.contains_key(k) && (props.contains_key(k) ==> r[k] == props[k]))
        }),
{
    lemma_property_names();
    lemma_parse_decimal_roundtrip(new_total(props, previous, TOTAL_DATA_FILES@, ADDED_DATA_FILES@, DELETED_DATA_FILES@) as u64);
    lemma_parse_decimal_roundtrip(new_total(props, previous, TOTAL_DELETE_FILES@, ADDED_DELETE_FILES@, REMOVED_DELETE_FILES@) as u64);
    lemma_parse_decimal_roundtrip(new_total(props, previous, TOTAL_RECORDS@, ADDED_RECORDS@, DELETED_RECORDS@) as u64);
    lemma_parse_decimal_roundtrip(new_total(props, previous, TOTAL_FILE_SIZE@, ADDED_FILE_SIZE@, REMOVED_FILE_SIZE@) as u64);
    lemma_parse_decimal_roundtrip(new_total(props, previous, TOTAL_POSITION_DELETES@, ADDED_POSITION_DELETES@, REMOVED_POSITION_DELETES@) as u64);
    lemma_parse_decimal_roundtrip(new_total(props, previous, TOTAL_EQUALITY_DELETES@, TOTAL_EQUALITY_DELETES@, REMOVED_EQUALITY_DELETES@) as u64);
}

/// Sets the totals of `summary` from those of the previous summary and the
/// changes that `summary` records.
pub fn update_snapshot_summaries(
    summary: Summary,
    previous_summary: Option<&Summary>,
    truncate_full_table: bool,
) -> (r: Summary)
    requires
        !(previous_summary is Some && truncate_full_table),
        totals_computable(summary.additional_properties@, summary_properties_of(previous_summary)),
    ensures
        r.operation == summary.operation,
        r.additional_properties@ == with_totals(summary.additional_properties@, summary_properties_of(previous_summary)),
{
    proof { lemma_property_names(); }
    let ghost props = summary.additional_properties@;
    let ghost previous = summary_properties_of(previous_summary);
    let mut summary = summary;
    update_totals(&mut summary, previous_summary, TOTAL_DATA_FILES, ADDED_DATA_FILES, DELETED_DATA_FILES);
    update_totals(&mut summary, previous_summary, TOTAL_DELETE_FILES, ADDED_DELETE_FILES, REMOVED_DELETE_FILES);
    update_totals(&mut summary, previous_summary, TOTAL_RECORDS, ADDED_RECORDS, DELETED_RECORDS);
    update_totals(&mut summary, previous_summary, TOTAL_FILE_SIZE, ADDED_FILE_SIZE, REMOVED_FILE_SIZE);
    update_totals(&mut summary, previous_summary, TOTAL_POSITION_DELETES, ADDED_POSITION_DELETES, REMOVED_POSITION_DELETES);
    update_totals(&mut summary, previous_summary, TOTAL_EQUALITY_DELETES, TOTAL_EQUALITY_DELETES, REMOVED_EQUALITY_DELETES);
    summary
}

} // verus!
