use replica_store::error::{ErrorKind, InvalidRecord};
use replica_store::json::{Member, JsonValue};
use replica_store::schema::{FieldInfo, FieldKind, LocalRecord, NativeRecord, NativeSchemaInfo, SchemaVersion};
use replica_store::storage::db::RemergeDb;
use replica_store::storage::model::SyncStatus;
use replica_store::storage::rows::{Meta, MirrorRow, Storage};
use replica_store::vclock::VClock;

fn schema(dedupe_on: Vec<&str>) -> NativeSchemaInfo {
    NativeSchemaInfo {
        version: SchemaVersion { major: 1, minor: 0, patch: 0 },
        fields: vec![
            FieldInfo { name: "id".into(), native_name: "guid".into(), kind: FieldKind::OwnGuid, required: false },
            FieldInfo { name: "title".into(), native_name: "name".into(), kind: FieldKind::Text, required: true },
            FieldInfo { name: "count".into(), native_name: "uses".into(), kind: FieldKind::Number, required: false },
        ],
        dedupe_on: dedupe_on.into_iter().map(String::from).collect(),
    }
}

fn text(s: &str) -> JsonValue {
    JsonValue::Text(s.to_string())
}

fn record(fields: Vec<(&str, JsonValue)>) -> NativeRecord {
    NativeRecord { fields: fields.into_iter().map(|(n, v)| Member { name: n.to_string(), value: v }).collect() }
}

fn field<'a>(rec: &'a NativeRecord, name: &str) -> Option<&'a JsonValue> {
    replica_store::json::find_member(&rec.fields, name)
}

fn as_text(v: Option<&JsonValue>) -> Option<&str> {
    match v {
        Some(JsonValue::Text(t)) => Some(t.as_str()),
        _ => None,
    }
}

fn open_empty(client: &str) -> RemergeDb {
    RemergeDb::open_with(Storage::new(), schema(vec![]), client.to_string()).unwrap()
}

fn clock_of(db: &RemergeDb, guid: &str) -> Vec<(String, u64)> {
    let row = db.local_rows().iter().find(|r| r.guid == guid).unwrap();
    (0..row.vector_clock.len()).map(|i| {
        let e = row.vector_clock.entry(i);
        (e.id.clone(), e.counter)
    }).collect()
}

#[test]
fn create_then_read_round_trip() {
    let mut db = open_empty("C1");
    let g = db.create(&record(vec![("name", text("a"))])).unwrap();
    let got = db.get_by_id(&g).unwrap().unwrap();
    assert_eq!(as_text(field(&got, "name")), Some("a"));
    assert_eq!(as_text(field(&got, "guid")), Some(g.as_str()));
    assert_eq!(db.change_counter(), 1);
    assert_eq!(clock_of(&db, &g), vec![("C1".to_string(), 1)]);
    assert_eq!(db.exists_by_id(&g).unwrap(), true);
    assert_eq!(db.client_id(), "C1");
    let row = &db.local_rows()[0];
    assert_eq!(row.sync_status, SyncStatus::New);
    assert_eq!(row.is_deleted, false);
    // stamped with the time of day: well after the year 2020
    assert!(row.local_modified_ms > 1_577_836_800_000);
    assert_eq!(row.remerge_schema_version, SchemaVersion { major: 1, minor: 0, patch: 0 });
    assert_eq!(row.last_writer_id, "C1");
}

#[test]
fn update_advances_the_clock() {
    let mut db = open_empty("C1");
    let g = db.create(&record(vec![("name", text("a"))])).unwrap();
    db.update_record(&record(vec![("guid", text(&g)), ("name", text("b"))])).unwrap();
    let got = db.get_by_id(&g).unwrap().unwrap();
    assert_eq!(as_text(field(&got, "name")), Some("b"));
    assert_eq!(clock_of(&db, &g), vec![("C1".to_string(), 2)]);
    assert_eq!(db.local_rows()[0].sync_status, SyncStatus::New);
    assert_eq!(db.mirror_rows().len(), 0);
    assert_eq!(db.change_counter(), 2);
    assert_eq!(db.local_rows().len(), 1);
}

#[test]
fn delete_leaves_a_tombstone() {
    let mut db = open_empty("C1");
    let g = db.create(&record(vec![("name", text("a"))])).unwrap();
    db.update_record(&record(vec![("guid", text(&g)), ("name", text("b"))])).unwrap();
    assert_eq!(db.delete_by_id(&g).unwrap(), true);
    assert!(db.get_by_id(&g).unwrap().is_none());
    let row = &db.local_rows()[0];
    assert!(row.is_deleted);
    assert!(row.record_data.fields.is_empty());
    assert_eq!(row.sync_status, SyncStatus::Changed);
    assert_eq!(clock_of(&db, &g), vec![("C1".to_string(), 3)]);
    assert_eq!(db.delete_by_id(&g).unwrap(), false);
    assert_eq!(db.change_counter(), 3);
    assert_eq!(db.exists_by_id(&g).unwrap(), false);
}

fn mirror_row(guid: &str, name: &str, client: &str, counter: u64, overridden: bool) -> MirrorRow {
    MirrorRow {
        guid: guid.to_string(),
        record_data: LocalRecord {
            fields: vec![
                Member { name: "id".into(), value: text(guid) },
                Member { name: "title".into(), value: text(name) },
            ],
        },
        vector_clock: VClock::new(client.to_string(), counter),
        last_writer_id: client.to_string(),
        server_modified_ms: 1000,
        is_overridden: overridden,
        ttl: None,
        sortindex: None,
    }
}

fn stored_with_mirror(rows: Vec<MirrorRow>, counter: i64) -> Storage {
    Storage {
        local: vec![],
        mirror: rows,
        meta: Meta {
            change_counter: Some(counter),
            client_id: Some("C1".to_string()),
            schema_version: Some(SchemaVersion { major: 1, minor: 0, patch: 0 }),
        },
    }
}

#[test]
fn update_overrides_the_mirror() {
    let stored = stored_with_mirror(vec![mirror_row("H", "old", "C2", 5, false)], 7);
    let mut db = RemergeDb::with_connection(stored, schema(vec![])).unwrap();
    assert_eq!(db.exists_by_id("H").unwrap(), true);
    let before = db.get_by_id("H").unwrap().unwrap();
    assert_eq!(as_text(field(&before, "name")), Some("old"));
    db.update_record(&record(vec![("guid", text("H")), ("name", text("x"))])).unwrap();
    assert_eq!(db.local_rows().len(), 1);
    assert!(db.mirror_rows()[0].is_overridden);
    assert_eq!(clock_of(&db, "H"), vec![("C1".to_string(), 8), ("C2".to_string(), 5)]);
    assert_eq!(db.local_rows()[0].sync_status, SyncStatus::Changed);
    let got = db.get_by_id("H").unwrap().unwrap();
    assert_eq!(as_text(field(&got, "name")), Some("x"));
    assert_eq!(db.get_all().unwrap().len(), 1);
}

#[test]
fn delete_of_mirror_only_record_inserts_tombstone() {
    let stored = stored_with_mirror(vec![mirror_row("H", "old", "C2", 5, false)], 0);
    let mut db = RemergeDb::with_connection(stored, schema(vec![])).unwrap();
    assert_eq!(db.delete_by_id_at("H", 42).unwrap(), true);
    let row = &db.local_rows()[0];
    assert!(row.is_deleted && row.record_data.fields.is_empty());
    assert_eq!(row.local_modified_ms, 42);
    assert!(db.mirror_rows()[0].is_overridden);
    assert_eq!(db.exists_by_id("H").unwrap(), false);
    assert_eq!(db.get_all().unwrap().len(), 0);
}

#[test]
fn delete_of_unknown_id_writes_nothing() {
    let mut db = open_empty("C1");
    db.create(&record(vec![("name", text("a"))])).unwrap();
    assert_eq!(db.delete_by_id("nobody").unwrap(), false);
    assert_eq!(db.change_counter(), 1);
    assert_eq!(db.local_rows().len(), 1);
}

#[test]
fn create_over_tombstone_is_refused() {
    let mut db = open_empty("C1");
    let g = db.create(&record(vec![("guid", text("G")), ("name", text("a"))])).unwrap();
    assert_eq!(g, "G");
    assert!(db.delete_by_id("G").unwrap());
    let r = db.create(&record(vec![("guid", text("G")), ("name", text("again"))]));
    assert!(matches!(r, Err(ErrorKind::InvalidRecord(InvalidRecord::IdNotUnique))));
    assert_eq!(db.change_counter(), 2);
}

#[test]
fn create_rejects_schema_violations() {
    let mut db = open_empty("C1");
    let missing = db.create(&record(vec![("uses", JsonValue::Bool(true))]));
    assert!(matches!(missing, Err(ErrorKind::InvalidRecord(InvalidRecord::SchemaViolation))));
    let wrong_kind = db.create(&record(vec![("name", JsonValue::Bool(true))]));
    assert!(matches!(wrong_kind, Err(ErrorKind::InvalidRecord(InvalidRecord::SchemaViolation))));
    assert_eq!(db.change_counter(), 0);
    let no_id = db.update_record(&record(vec![("name", text("b"))]));
    assert!(matches!(no_id, Err(ErrorKind::InvalidRecord(InvalidRecord::SchemaViolation))));
}

#[test]
fn update_of_unknown_record_fails() {
    let mut db = open_empty("C1");
    let r = db.update_record(&record(vec![("guid", text("Z")), ("name", text("b"))]));
    match r {
        Err(ErrorKind::NoSuchRecord(id)) => assert_eq!(id, "Z"),
        other => panic!("unexpected: {:?}", other),
    }
    assert_eq!(db.change_counter(), 0);
}

#[test]
fn update_of_tombstone_fails_and_changes_nothing() {
    let mut db = open_empty("C1");
    db.create(&record(vec![("guid", text("G")), ("name", text("a"))])).unwrap();
    db.delete_by_id("G").unwrap();
    let r = db.update_record(&record(vec![("guid", text("G")), ("name", text("b"))]));
    assert!(matches!(r, Err(ErrorKind::StorageFailure)));
    assert_eq!(db.change_counter(), 2);
}

#[test]
fn duplicates_are_found_on_dedupe_fields() {
    let mut db = RemergeDb::open_with(Storage::new(), schema(vec!["title"]), "C1".to_string()).unwrap();
    let g = db.create(&record(vec![("name", text("a"))])).unwrap();
    let dup = db.create(&record(vec![("name", text("a"))]));
    assert!(matches!(dup, Err(ErrorKind::InvalidRecord(InvalidRecord::Duplicate))));
    db.create(&record(vec![("name", text("b"))])).unwrap();
    // a record is no duplicate of itself
    db.update_record(&record(vec![("guid", text(&g)), ("name", text("a"))])).unwrap();
    let clash = db.update_record(&record(vec![("guid", text(&g)), ("name", text("b"))]));
    assert!(matches!(clash, Err(ErrorKind::InvalidRecord(InvalidRecord::Duplicate))));
    assert_eq!(db.change_counter(), 3);
}

#[test]
fn causality_violation_leaves_state_unchanged() {
    // the mirror row already holds a counter for this client above the store's
    let stored = stored_with_mirror(vec![mirror_row("H", "old", "C1", 50, false)], 7);
    let mut db = RemergeDb::with_connection(stored, schema(vec![])).unwrap();
    let r = db.update_record(&record(vec![("guid", text("H")), ("name", text("x"))]));
    assert!(matches!(r, Err(ErrorKind::CausalityViolation)));
    assert_eq!(db.change_counter(), 7);
    assert_eq!(db.local_rows().len(), 0);
    assert!(!db.mirror_rows()[0].is_overridden);
    let d = db.delete_by_id("H");
    assert!(matches!(d, Err(ErrorKind::CausalityViolation)));
}

#[test]
fn counter_without_room_is_corruption() {
    let stored = stored_with_mirror(vec![], i64::MAX);
    let mut db = RemergeDb::with_connection(stored, schema(vec![])).unwrap();
    let r = db.create(&record(vec![("name", text("a"))]));
    assert!(matches!(r, Err(ErrorKind::DbCorruption)));
}

#[test]
fn open_checks_what_is_stored() {
    let negative = stored_with_mirror(vec![], -1);
    assert!(matches!(RemergeDb::with_connection(negative, schema(vec![])), Err(ErrorKind::DbCorruption)));
    let twice = stored_with_mirror(vec![mirror_row("H", "a", "C2", 1, false), mirror_row("H", "b", "C2", 2, false)], 0);
    assert!(matches!(RemergeDb::with_connection(twice, schema(vec![])), Err(ErrorKind::DbCorruption)));
    let mut partial = stored_with_mirror(vec![], 0);
    partial.meta.client_id = None;
    assert!(matches!(RemergeDb::with_connection(partial, schema(vec![])), Err(ErrorKind::DbCorruption)));
    let mut other_major = stored_with_mirror(vec![], 0);
    other_major.meta.schema_version = Some(SchemaVersion { major: 2, minor: 0, patch: 0 });
    assert!(matches!(RemergeDb::with_connection(other_major, schema(vec![])), Err(ErrorKind::SchemaMismatch)));
    let mut other_minor = stored_with_mirror(vec![], 3);
    other_minor.meta.schema_version = Some(SchemaVersion { major: 1, minor: 9, patch: 0 });
    let db = RemergeDb::with_connection(other_minor, schema(vec![])).unwrap();
    assert_eq!(db.change_counter(), 3);
    assert_eq!(db.client_id(), "C1");
}

#[test]
fn bootstrap_gives_a_fresh_client_id() {
    let a = RemergeDb::with_connection(Storage::new(), schema(vec![])).unwrap();
    let b = RemergeDb::with_connection(Storage::new(), schema(vec![])).unwrap();
    assert_eq!(a.client_id().len(), 12);
    assert_ne!(a.client_id(), b.client_id());
    assert_eq!(a.change_counter(), 0);
    assert_eq!(a.info().version.major, 1);
}

#[test]
fn get_all_lists_overlay_then_mirror() {
    let stored = stored_with_mirror(
        vec![mirror_row("H", "one", "C2", 5, false), mirror_row("I", "two", "C2", 6, false)],
        0,
    );
    let mut db = RemergeDb::with_connection(stored, schema(vec![])).unwrap();
    db.create_with(&record(vec![("name", text("three"))]), 10, "J").unwrap();
    db.update_record_at(&record(vec![("guid", text("I")), ("name", text("two!"))]), 11).unwrap();
    let all = db.get_all().unwrap();
    let names: Vec<&str> = all.iter().map(|r| as_text(field(r, "name")).unwrap()).collect();
    assert_eq!(names, vec!["three", "two!", "one"]);
}

#[test]
fn counter_counts_the_writes() {
    let mut db = open_empty("C1");
    let mut writes = 0;
    let a = db.create(&record(vec![("name", text("a"))])).unwrap();
    writes += 1;
    assert!(db.create(&record(vec![("uses", text("no name"))])).is_err());
    db.update_record(&record(vec![("guid", text(&a)), ("name", text("b"))])).unwrap();
    writes += 1;
    assert!(db.update_record(&record(vec![("guid", text("zz")), ("name", text("b"))])).is_err());
    assert_eq!(db.delete_by_id("zz").unwrap(), false);
    assert_eq!(db.delete_by_id(&a).unwrap(), true);
    writes += 1;
    assert!(db.create(&record(vec![("guid", text(&a)), ("name", text("c"))])).is_err());
    db.create(&record(vec![("name", text("d"))])).unwrap();
    writes += 1;
    assert_eq!(db.change_counter(), writes);
    // at most one visible row for any id, and every overlay row overrides its mirror row
    for row in db.local_rows() {
        assert!(db.mirror_rows().iter().all(|m| m.guid != row.guid || m.is_overridden));
    }
}

#[test]
fn inbound_changes_respect_the_overlay() {
    let mut db = open_empty("C1");
    // no overlay row: the mirror row is visible, whatever flag came with it
    db.write_mirror(mirror_row("H", "server", "C2", 5, true));
    assert!(!db.mirror_rows()[0].is_overridden);
    assert_eq!(db.exists_by_id("H").unwrap(), true);
    assert_eq!(db.change_counter(), 0);
    db.update_record_at(&record(vec![("guid", text("H")), ("name", text("x"))]), 9).unwrap();
    assert!(db.mirror_rows()[0].is_overridden);
    assert_eq!(clock_of(&db, "H"), vec![("C1".to_string(), 1), ("C2".to_string(), 5)]);
    // an overlay row: the next inbound change stays behind it
    db.write_mirror(mirror_row("H", "server again", "C2", 6, false));
    assert_eq!(db.mirror_rows().len(), 1);
    assert!(db.mirror_rows()[0].is_overridden);
    assert_eq!(db.mirror_rows()[0].vector_clock.get("C2"), 6);
    let got = db.get_by_id("H").unwrap().unwrap();
    assert_eq!(as_text(field(&got, "name")), Some("x"));
    assert_eq!(db.get_all().unwrap().len(), 1);
    assert_eq!(db.change_counter(), 1);
}

#[test]
fn pending_rows_are_those_not_synced() {
    let mut db = open_empty("C1");
    assert!(db.pending_rows().is_empty());
    let a = db.create(&record(vec![("name", text("a"))])).unwrap();
    let b = db.create(&record(vec![("name", text("b"))])).unwrap();
    db.delete_by_id(&a).unwrap();
    let pending = db.pending_rows();
    let seen: Vec<(&str, SyncStatus, bool)> =
        pending.iter().map(|r| (r.guid.as_str(), r.sync_status, r.is_deleted)).collect();
    assert_eq!(seen, vec![(a.as_str(), SyncStatus::Changed, true), (b.as_str(), SyncStatus::New, false)]);
}
