use std::sync::Arc;

use iceberg_snapshot::decimal::{parse_u64, u64_to_string};
use iceberg_snapshot::snapshot::{Operation, Summary};
use iceberg_snapshot::string_map::StringMap;
use iceberg_snapshot::summary::{
    set_if_positive, update_snapshot_summaries, update_totals, SnapshotSummaryCollector,
    UpdateMetrics,
};
use iceberg_snapshot::table::{
    DataContentType, DataFile, PartitionField, PartitionSpec, Schema, Struct,
};

fn props(pairs: &[(&str, &str)]) -> StringMap<String> {
    let mut m = StringMap::new();
    for (k, v) in pairs {
        m.insert(k.to_string(), v.to_string());
    }
    m
}

fn get(m: &StringMap<String>, k: &str) -> Option<String> {
    m.get(k).cloned()
}

fn data_file(content: DataContentType, records: u64, size: u64, partition: Vec<Option<&str>>) -> DataFile {
    DataFile {
        content,
        partition: Struct {
            values: partition.into_iter().map(|v| v.map(|s| s.to_string())).collect(),
        },
        record_count: records,
        file_size_in_bytes: size,
    }
}

fn spec(names: &[&str]) -> Arc<PartitionSpec> {
    Arc::new(PartitionSpec {
        spec_id: 0,
        fields: names.iter().map(|n| PartitionField { name: n.to_string() }).collect(),
    })
}

#[test]
fn decimal_text() {
    assert_eq!(u64_to_string(0), "0");
    assert_eq!(u64_to_string(7), "7");
    assert_eq!(u64_to_string(1234567890), "1234567890");
    assert_eq!(u64_to_string(u64::MAX), "18446744073709551615");
    assert_eq!(parse_u64("42"), Some(42));
    assert_eq!(parse_u64("+42"), Some(42));
    assert_eq!(parse_u64("007"), Some(7));
    assert_eq!(parse_u64("18446744073709551615"), Some(u64::MAX));
    assert_eq!(parse_u64("18446744073709551616"), None);
    assert_eq!(parse_u64(""), None);
    assert_eq!(parse_u64("+"), None);
    assert_eq!(parse_u64("-1"), None);
    assert_eq!(parse_u64("1a"), None);
    for n in [0u64, 1, 9, 10, 99, 100, 65535, u64::MAX] {
        assert_eq!(parse_u64(&u64_to_string(n)), Some(n));
        assert_eq!(parse_u64(&u64_to_string(n)), n.to_string().parse::<u64>().ok());
    }
}

#[test]
fn string_map_basics() {
    let mut m: StringMap<String> = StringMap::new();
    assert!(m.is_empty());
    assert_eq!(m.insert("a".to_string(), "1".to_string()), None);
    assert_eq!(m.insert("b".to_string(), "2".to_string()), None);
    assert_eq!(m.insert("a".to_string(), "3".to_string()), Some("1".to_string()));
    assert_eq!(m.len(), 2);
    assert_eq!(m.key_at(0), "a");
    assert_eq!(m.value_at(0), "3");
    assert_eq!(get(&m, "b"), Some("2".to_string()));
    assert!(!m.contains_key("c"));
    assert_eq!(m, props(&[("b", "2"), ("a", "3")]));
    assert_ne!(m, props(&[("b", "2"), ("a", "4")]));
    assert_ne!(m, props(&[("b", "2")]));
    let copy = m.clone();
    assert_eq!(copy, m);
    assert_eq!(copy.key_at(0), "a");
    assert_eq!(copy.value_at(0), "3");
}

#[test]
fn counters_do_not_depend_on_order() {
    let a = data_file(DataContentType::PositionDeletes, 3, 30, vec![]);
    let b = data_file(DataContentType::EqualityDeletes, 4, 40, vec![]);
    let r = data_file(DataContentType::Data, 5, 50, vec![]);
    let mut m1 = UpdateMetrics::default();
    m1.add_file(&a);
    m1.remove_file(&r);
    m1.add_file(&b);
    let mut m2 = UpdateMetrics::default();
    m2.add_file(&b);
    m2.add_file(&a);
    m2.remove_file(&r);
    assert_eq!(m1.to_map(), m2.to_map());
    assert_eq!(m1.added_delete_files, m1.added_pos_delete_files + m1.added_eq_delete_files);
    assert_eq!(m1.added_data_files + m1.added_delete_files, 2);
    assert_eq!(m1.removed_data_files + m1.removed_delete_files, 1);
}

#[test]
fn set_if_positive_only_positive() {
    let mut m = StringMap::new();
    set_if_positive(&mut m, 0, "x");
    assert!(m.is_empty());
    set_if_positive(&mut m, 12, "x");
    assert_eq!(get(&m, "x"), Some("12".to_string()));
}

#[test]
fn metrics_to_map() {
    let mut metrics = UpdateMetrics::default();
    assert!(metrics.to_map().is_empty());
    metrics.add_file(&data_file(DataContentType::Data, 10, 100, vec![]));
    metrics.add_file(&data_file(DataContentType::PositionDeletes, 3, 30, vec![]));
    metrics.add_file(&data_file(DataContentType::EqualityDeletes, 2, 20, vec![]));
    metrics.remove_file(&data_file(DataContentType::Data, 4, 40, vec![]));
    let m = metrics.to_map();
    assert_eq!(
        m,
        props(&[
            ("added-files-size", "150"),
            ("removed-files-size", "40"),
            ("added-data-files", "1"),
            ("deleted-data-files", "1"),
            ("added-equality-delete-files", "1"),
            ("added-position-delete-files", "1"),
            ("added-delete-files", "2"),
            ("added-records", "10"),
            ("deleted-records", "4"),
            ("added-position-deletes", "3"),
            ("added-equality-deletes", "2"),
        ])
    );
    assert_eq!(m.key_at(0), "added-files-size");
    assert_eq!(m.key_at(1), "removed-files-size");
}

#[test]
fn partition_path() {
    let s = spec(&["year", "city"]);
    let p = Struct {
        values: vec![Some("2024".to_string()), None],
    };
    assert_eq!(s.partition_to_path(&p, Arc::new(Schema { schema_id: 0 })), "year=2024/city=null");
}

#[test]
fn collector_builds_partition_summaries() {
    let schema = Arc::new(Schema { schema_id: 0 });
    let s = spec(&["year"]);
    let mut c = SnapshotSummaryCollector::default();
    c.set_partition_summary_limit(10);
    c.add_file(&data_file(DataContentType::Data, 5, 50, vec![Some("2024")]), schema.clone(), s.clone());
    c.add_file(&data_file(DataContentType::Data, 1, 10, vec![Some("2023")]), schema.clone(), s.clone());
    c.remove_file(&data_file(DataContentType::Data, 2, 20, vec![Some("2024")]), schema.clone(), s.clone());
    let unpartitioned = spec(&[]);
    c.add_file(&data_file(DataContentType::Data, 1, 1, vec![]), schema.clone(), unpartitioned);
    let built = c.build();
    assert_eq!(get(&built, "changed-partition-count"), Some("2".to_string()));
    assert_eq!(get(&built, "added-data-files"), Some("3".to_string()));
    assert_eq!(get(&built, "added-records"), Some("7".to_string()));
    assert_eq!(get(&built, "added-files-size"), Some("61".to_string()));
    assert_eq!(
        get(&built, "partitions.year=2024"),
        Some("added-files-size=50,removed-files-size=20,added-data-files=1,deleted-data-files=1,added-records=5,deleted-records=2".to_string())
    );
    assert_eq!(
        get(&built, "partitions.year=2023"),
        Some("added-files-size=10,added-data-files=1,added-records=1".to_string())
    );
}

#[test]
fn collector_over_limit_omits_partitions() {
    let schema = Arc::new(Schema { schema_id: 0 });
    let s = spec(&["p"]);
    let mut c = SnapshotSummaryCollector::default();
    c.set_partition_summary_limit(1);
    c.add_file(&data_file(DataContentType::EqualityDeletes, 5, 50, vec![Some("a")]), schema.clone(), s.clone());
    c.add_file(&data_file(DataContentType::EqualityDeletes, 5, 50, vec![Some("b")]), schema.clone(), s.clone());
    let built = c.build();
    assert_eq!(get(&built, "changed-partition-count"), Some("2".to_string()));
    assert_eq!(get(&built, "partitions.p=a"), None);
    assert_eq!(get(&built, "added-equality-deletes"), Some("10".to_string()));

    let empty = SnapshotSummaryCollector::default();
    assert!(empty.build().is_empty());
}

#[test]
fn totals_from_previous_summary() {
    let previous = Summary {
        operation: Operation::Append,
        additional_properties: props(&[
            ("total-data-files", "10"),
            ("total-records", "100"),
            ("total-files-size", "1000"),
            ("total-equality-deletes", "4"),
        ]),
    };
    let current = Summary {
        operation: Operation::Overwrite,
        additional_properties: props(&[
            ("added-data-files", "3"),
            ("deleted-data-files", "1"),
            ("added-records", "30"),
            ("deleted-records", "5"),
            ("removed-files-size", "+200"),
            ("removed-equality-deletes", "1"),
        ]),
    };
    let r = update_snapshot_summaries(current, Some(&previous), false);
    assert_eq!(r.operation, Operation::Overwrite);
    let p = &r.additional_properties;
    assert_eq!(get(p, "total-data-files"), Some("12".to_string()));
    assert_eq!(get(p, "total-delete-files"), Some("0".to_string()));
    assert_eq!(get(p, "total-records"), Some("125".to_string()));
    assert_eq!(get(p, "total-files-size"), Some("800".to_string()));
    assert_eq!(get(p, "total-position-deletes"), Some("0".to_string()));
    assert_eq!(get(p, "total-equality-deletes"), Some("3".to_string()));
    assert_eq!(get(p, "added-records"), Some("30".to_string()));
}

#[test]
fn totals_without_previous_summary() {
    let current = Summary {
        operation: Operation::Append,
        additional_properties: props(&[("added-data-files", "2"), ("total-equality-deletes", "6")]),
    };
    let r = update_snapshot_summaries(current, None, true);
    let p = &r.additional_properties;
    assert_eq!(get(p, "total-data-files"), Some("2".to_string()));
    assert_eq!(get(p, "total-equality-deletes"), Some("6".to_string()));
    assert_eq!(p.len(), 7);
}

#[test]
fn update_totals_twice_changes_nothing() {
    let previous = Summary {
        operation: Operation::Append,
        additional_properties: props(&[("total-records", "100")]),
    };
    let mut summary = Summary {
        operation: Operation::Append,
        additional_properties: props(&[("added-records", "5"), ("deleted-records", "2")]),
    };
    update_totals(&mut summary, Some(&previous), "total-records", "added-records", "deleted-records");
    assert_eq!(get(&summary.additional_properties, "total-records"), Some("103".to_string()));
    let once = summary.clone();
    update_totals(&mut summary, Some(&previous), "total-records", "added-records", "deleted-records");
    assert_eq!(summary, once);
}
