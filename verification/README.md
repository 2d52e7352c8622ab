# iceberg_snapshot

Snapshots of an Iceberg table, the summaries of the commits that produce
them, and the references that name them, with their behaviour stated in
contracts and proved.

- `src/snapshot.rs`: operations, summaries, snapshots (getters, schema and
  parent lookup, builder, the v1 and v2 stored structures), references and
  retention policies.
- `src/summary.rs`: the counters a commit collects per table and per
  partition, the summary properties built from them, and the running totals
  carried from one summary to the next.
- `src/string_map.rs`: the map from property names to values that summaries
  use, kept in insertion order.
- `src/decimal.rs`, `src/text.rs`: decimal text of counters, text joining.
- `src/table.rs`: the parts of table metadata that snapshots read.
- `src/time.rs`: timestamps as chrono dates.
- `app/`: serde forms of the types, and a typed builder.
