use chrono::{TimeZone, Utc};
use iceberg_snapshot::snapshot::{
    Operation, Snapshot, SnapshotError, SnapshotReference, SnapshotRetention, SnapshotV1, SnapshotV2,
    Summary, MAIN_BRANCH,
};
use iceberg_snapshot::string_map::StringMap;
use iceberg_snapshot::table::{Schema, TableMetadata};
use std::sync::Arc;

fn empty_summary(operation: Operation) -> Summary {
    Summary {
        operation,
        additional_properties: StringMap::new(),
    }
}

fn sample_snapshot(snapshot_id: i64, parent: Option<i64>, schema_id: Option<i32>) -> Snapshot {
    Snapshot::builder()
        .with_snapshot_id(snapshot_id)
        .with_parent_snapshot_id(parent)
        .with_sequence_number(7)
        .with_timestamp_ms(1515100955770)
        .with_manifest_list("s3://a/b/manifest.avro".to_string())
        .with_summary(empty_summary(Operation::Overwrite))
        .schema_id_opt(schema_id)
        .build()
}

#[test]
fn schema() {
    let v1 = SnapshotV1 {
        snapshot_id: 3051729675574597004,
        parent_snapshot_id: None,
        timestamp_ms: 1515100955770,
        manifest_list: Some("s3://b/wh/.../s1.avro".to_string()),
        manifests: None,
        summary: Some(empty_summary(Operation::Append)),
        schema_id: Some(0),
    };
    let result: Snapshot = v1.try_into().unwrap();
    assert_eq!(3051729675574597004, result.snapshot_id());
    assert_eq!(
        Utc.timestamp_millis_opt(1515100955770).unwrap(),
        result.timestamp().unwrap().instant().0
    );
    assert_eq!(1515100955770, result.timestamp_ms());
    assert_eq!(
        Summary {
            operation: Operation::Append,
            additional_properties: StringMap::new()
        },
        *result.summary()
    );
    assert_eq!("s3://b/wh/.../s1.avro".to_string(), *result.manifest_list());
}

#[test]
fn operation_names() {
    assert_eq!(Operation::Append.as_str(), "append");
    assert_eq!(Operation::Replace.as_str(), "replace");
    assert_eq!(Operation::Overwrite.as_str(), "overwrite");
    assert_eq!(Operation::Delete.as_str(), "delete");
    assert_eq!(Operation::default(), Operation::Append);
    assert_eq!(MAIN_BRANCH, "main");
}

#[test]
fn builder_sets_fields() {
    let s = sample_snapshot(5, Some(4), Some(2));
    assert_eq!(s.snapshot_id(), 5);
    assert_eq!(s.parent_snapshot_id(), Some(4));
    assert_eq!(s.sequence_number(), 7);
    assert_eq!(s.timestamp_ms(), 1515100955770);
    assert_eq!(s.manifest_list(), "s3://a/b/manifest.avro");
    assert_eq!(s.summary().operation, Operation::Overwrite);
    assert_eq!(s.schema_id(), Some(2));
    let log = s.log();
    assert_eq!(log.snapshot_id, 5);
    assert_eq!(log.timestamp_ms, 1515100955770);

    let t = Snapshot::builder()
        .with_snapshot_id(1)
        .with_sequence_number(0)
        .with_timestamp_ms(0)
        .with_manifest_list("m".to_string())
        .with_summary(empty_summary(Operation::Append))
        .with_schema_id(9)
        .build();
    assert_eq!(t.parent_snapshot_id(), None);
    assert_eq!(t.schema_id(), Some(9));
}

#[test]
fn timestamp_out_of_range() {
    let s = Snapshot::builder()
        .with_snapshot_id(1)
        .with_sequence_number(1)
        .with_timestamp_ms(i64::MAX)
        .with_manifest_list("m".to_string())
        .with_summary(empty_summary(Operation::Append))
        .build();
    assert_eq!(s.timestamp().unwrap_err(), SnapshotError::InvalidTimestamp(i64::MAX));
    assert_eq!(s.timestamp().unwrap_err().message(), "Can't convert timestamp to utc");
}

fn at(ms: i64) -> Snapshot {
    Snapshot::builder()
        .with_snapshot_id(1)
        .with_sequence_number(1)
        .with_timestamp_ms(ms)
        .with_manifest_list("m".to_string())
        .with_summary(empty_summary(Operation::Append))
        .build()
}

#[test]
fn timestamp_instant_and_range() {
    let t = at(1515100955770).timestamp().unwrap();
    assert_eq!(t.millis(), 1515100955770);
    assert_eq!(t.instant().0.to_rfc3339(), "2018-01-04T21:22:35.770+00:00");
    let lo: i64 = -8334601228800000;
    let hi: i64 = 8210266876799999;
    assert_eq!(at(lo).timestamp().unwrap().millis(), lo);
    assert_eq!(at(hi).timestamp().unwrap().millis(), hi);
    assert_eq!(at(lo).timestamp().unwrap().instant().0, chrono::DateTime::<Utc>::MIN_UTC);
    assert!(at(lo - 1).timestamp().is_err());
    assert!(at(hi + 1).timestamp().is_err());
    assert!(at(i64::MIN).timestamp().is_err());
    assert_eq!(at(-1).timestamp().unwrap().millis(), -1);
}

#[test]
fn v2_roundtrip() {
    let s = sample_snapshot(11, None, Some(3));
    let v2 = SnapshotV2::from(s.clone());
    assert_eq!(v2.snapshot_id, 11);
    assert_eq!(v2.sequence_number, 7);
    assert_eq!(v2.manifest_list, "s3://a/b/manifest.avro");
    assert_eq!(Snapshot::from(v2), s);
}

#[test]
fn v1_roundtrip_and_sequence_number_zero() {
    let s = Snapshot::builder()
        .with_snapshot_id(21)
        .with_parent_snapshot_id(Some(20))
        .with_sequence_number(0)
        .with_timestamp_ms(1000)
        .with_manifest_list("list.avro".to_string())
        .with_summary(empty_summary(Operation::Delete))
        .build();
    let v1 = SnapshotV1::from(s.clone());
    assert_eq!(v1.manifest_list, Some("list.avro".to_string()));
    assert_eq!(v1.manifests, None);
    let back: Snapshot = v1.try_into().unwrap();
    assert_eq!(back, s);

    let with_seq = sample_snapshot(3, None, None);
    let read: Snapshot = SnapshotV1::from(with_seq).try_into().unwrap();
    assert_eq!(read.sequence_number(), 0);
}

#[test]
fn v1_manifest_variants() {
    let base = |manifest_list: Option<String>, manifests: Option<Vec<String>>| SnapshotV1 {
        snapshot_id: 1,
        parent_snapshot_id: None,
        timestamp_ms: 5,
        manifest_list,
        manifests,
        summary: None,
        schema_id: None,
    };
    let invalid: Snapshot = base(Some("l".to_string()), Some(vec!["m".to_string()]))
        .try_into()
        .unwrap();
    assert_eq!(
        invalid.manifest_list(),
        "Invalid v1 snapshot, when manifest list provided, manifest files should be omitted"
    );
    let unsupported: Snapshot = base(None, Some(vec!["m".to_string()])).try_into().unwrap();
    assert_eq!(
        unsupported.manifest_list(),
        "Unsupported v1 snapshot, only manifest list is supported"
    );
    assert_eq!(*unsupported.summary(), empty_summary(Operation::Append));
    assert_eq!(unsupported.schema_id(), None);
}

fn metadata() -> TableMetadata {
    TableMetadata {
        current_schema_id: 1,
        schemas: vec![Arc::new(Schema { schema_id: 0 }), Arc::new(Schema { schema_id: 1 })],
        snapshots: vec![
            Arc::new(sample_snapshot(100, None, None)),
            Arc::new(sample_snapshot(101, Some(100), Some(0))),
        ],
    }
}

#[test]
fn schema_lookup() {
    let tm = metadata();
    let named = sample_snapshot(1, None, Some(0));
    assert_eq!(named.schema(&tm).unwrap().schema_id, 0);
    let current = sample_snapshot(1, None, None);
    assert_eq!(current.schema(&tm).unwrap().schema_id, 1);
    let missing = sample_snapshot(1, None, Some(42));
    assert_eq!(missing.schema(&tm).unwrap_err(), SnapshotError::SchemaNotFound(42));
    assert_eq!(SnapshotError::SchemaNotFound(42).message(), "Schema with id 42 not found");
    assert_eq!(SnapshotError::SchemaNotFound(-7).message(), "Schema with id -7 not found");
    assert_eq!(
        SnapshotError::SchemaNotFound(i32::MIN).message(),
        format!("Schema with id {} not found", i32::MIN)
    );
}

#[test]
fn parent_lookup() {
    let tm = metadata();
    let child = sample_snapshot(102, Some(101), None);
    assert_eq!(child.parent_snapshot(&tm).unwrap().snapshot_id(), 101);
    let orphan = sample_snapshot(103, Some(55), None);
    assert!(orphan.parent_snapshot(&tm).is_none());
    let root = sample_snapshot(100, None, None);
    assert!(root.parent_snapshot(&tm).is_none());
}

#[test]
fn references() {
    let branch = SnapshotReference::new(7, SnapshotRetention::branch(Some(1), None, Some(10)));
    assert!(branch.is_branch());
    assert_eq!(branch.snapshot_id, 7);
    assert_eq!(
        branch.retention,
        SnapshotRetention::Branch {
            min_snapshots_to_keep: Some(1),
            max_snapshot_age_ms: None,
            max_ref_age_ms: Some(10)
        }
    );
    let tag = SnapshotReference::new(8, SnapshotRetention::Tag { max_ref_age_ms: None });
    assert!(!tag.is_branch());
}
