use replica_store::error::{ErrorKind, InvalidRecord};
use replica_store::json::{clone_value, find_member, value_eq, JsonNumber, JsonValue, Member};
use replica_store::schema::{
    FieldInfo, FieldKind, LocalRecord, NativeRecord, RemergeInfo, SchemaVersion, ToLocalReason,
};
use replica_store::storage::model::SyncStatus;
use replica_store::text::{decimal_string, parse_decimal_millis};

#[test]
fn decimals_are_written_without_leading_zeros() {
    assert_eq!(decimal_string(0), "0");
    assert_eq!(decimal_string(9), "9");
    assert_eq!(decimal_string(10), "10");
    assert_eq!(decimal_string(1510726317000), "1510726317000");
    assert_eq!(decimal_string(u64::MAX), "18446744073709551615");
}

#[test]
fn seconds_are_read_in_milliseconds() {
    assert_eq!(parse_decimal_millis("12344321.0"), Some(12_344_321_000));
    assert_eq!(parse_decimal_millis("0"), Some(0));
    assert_eq!(parse_decimal_millis("1.5"), Some(1500));
    assert_eq!(parse_decimal_millis("1.05"), Some(1050));
    assert_eq!(parse_decimal_millis("1.2349"), Some(1234));
    assert_eq!(parse_decimal_millis("-2.25"), Some(-2250));
    assert_eq!(parse_decimal_millis("999999999999999.999"), Some(999_999_999_999_999_999));
    assert_eq!(parse_decimal_millis("1000000000000000"), None);
    for bad in ["", "-", ".5", "5.", "1e5", "1.5e3", "1.2.3", "1,5", "+1", " 1", "١"] {
        assert_eq!(parse_decimal_millis(bad), None, "{:?}", bad);
    }
}

#[test]
fn sync_status_codes() {
    assert_eq!((SyncStatus::Synced.code(), SyncStatus::Changed.code(), SyncStatus::New.code()), (0, 1, 2));
    assert_eq!(SyncStatus::from_code(2), Some(SyncStatus::New));
    assert_eq!(SyncStatus::from_code(3), None);
    assert_eq!(SyncStatus::Synced.after_change(), SyncStatus::Changed);
    assert_eq!(SyncStatus::Changed.after_change(), SyncStatus::Changed);
    assert_eq!(SyncStatus::New.after_change(), SyncStatus::New);
}

fn tree() -> JsonValue {
    JsonValue::Object(vec![
        Member { name: "a".into(), value: JsonValue::Array(vec![JsonValue::Null, JsonValue::Bool(true)]) },
        Member { name: "n".into(), value: JsonValue::Number(JsonNumber::Float("1.5".into())) },
        Member { name: "a".into(), value: JsonValue::Text("second".into()) },
    ])
}

#[test]
fn trees_compare_and_copy_by_structure() {
    let t = tree();
    let copy = clone_value(&t);
    assert!(value_eq(&t, &copy));
    let mut other = clone_value(&t);
    if let JsonValue::Object(ms) = &mut other {
        ms[0].value = JsonValue::Array(vec![JsonValue::Null, JsonValue::Bool(false)]);
    }
    assert!(!value_eq(&t, &other));
    assert!(!value_eq(&JsonValue::Number(JsonNumber::PosInt(1)), &JsonValue::Number(JsonNumber::NegInt(1))));
    assert!(!value_eq(&JsonValue::Array(vec![]), &JsonValue::Object(vec![])));
    if let JsonValue::Object(ms) = &t {
        assert!(matches!(find_member(ms, "a"), Some(JsonValue::Array(_))));
        assert!(find_member(ms, "b").is_none());
    }
}

fn info() -> RemergeInfo {
    RemergeInfo {
        version: SchemaVersion { major: 1, minor: 2, patch: 3 },
        fields: vec![
            FieldInfo { name: "id".into(), native_name: "guid".into(), kind: FieldKind::OwnGuid, required: false },
            FieldInfo { name: "title".into(), native_name: "name".into(), kind: FieldKind::Text, required: true },
            FieldInfo { name: "on".into(), native_name: "enabled".into(), kind: FieldKind::Bool, required: false },
            FieldInfo { name: "extra".into(), native_name: "extra".into(), kind: FieldKind::Any, required: false },
        ],
        dedupe_on: vec!["title".into(), "on".into()],
    }
}

fn members(fields: Vec<(&str, JsonValue)>) -> Vec<Member> {
    fields.into_iter().map(|(n, v)| Member { name: n.to_string(), value: v }).collect()
}

fn names(ms: &[Member]) -> Vec<&str> {
    ms.iter().map(|m| m.name.as_str()).collect()
}

#[test]
fn records_are_renamed_in_schema_order() {
    let native = NativeRecord {
        fields: members(vec![
            ("unknown", JsonValue::Null),
            ("enabled", JsonValue::Bool(true)),
            ("name", JsonValue::Text("n".into())),
        ]),
    };
    let (id, local) = info().native_to_local(&native, ToLocalReason::Creation, "fresh").unwrap();
    assert_eq!(id, "fresh");
    assert_eq!(names(&local.fields), vec!["id", "title", "on"]);
    assert!(value_eq(&local.fields[0].value, &JsonValue::Text("fresh".into())));
    let back = info().local_to_native(&local).unwrap();
    assert_eq!(names(&back.fields), vec!["guid", "name", "enabled"]);
    let (id, _) = info()
        .native_to_local(
            &NativeRecord { fields: members(vec![("guid", JsonValue::Text("mine".into())), ("name", JsonValue::Text("n".into()))]) },
            ToLocalReason::Update,
            "",
        )
        .unwrap();
    assert_eq!(id, "mine");
}

#[test]
fn records_that_break_the_schema_are_refused() {
    let refuse = |fields: Vec<(&str, JsonValue)>, reason: ToLocalReason| {
        let r = info().native_to_local(&NativeRecord { fields: members(fields) }, reason, "f");
        assert!(matches!(r, Err(ErrorKind::InvalidRecord(InvalidRecord::SchemaViolation))));
    };
    refuse(vec![("enabled", JsonValue::Bool(true))], ToLocalReason::Creation);
    refuse(vec![("name", JsonValue::Text("n".into())), ("enabled", JsonValue::Null)], ToLocalReason::Creation);
    refuse(vec![("name", JsonValue::Text("n".into())), ("guid", JsonValue::Bool(true))], ToLocalReason::Creation);
    refuse(vec![("name", JsonValue::Text("n".into()))], ToLocalReason::Update);
    let stored = LocalRecord { fields: members(vec![("id", JsonValue::Text("x".into()))]) };
    assert!(matches!(info().local_to_native(&stored), Err(ErrorKind::InvalidRecord(InvalidRecord::SchemaViolation))));
}

#[test]
fn dedupe_fields_are_compared_by_value() {
    let rec = |title: &str, on: Option<bool>| LocalRecord {
        fields: members(
            vec![("title", JsonValue::Text(title.into()))]
                .into_iter()
                .chain(on.map(|b| ("on", JsonValue::Bool(b))))
                .collect(),
        ),
    };
    let i = info();
    assert!(i.same_dedupe_fields(&rec("a", Some(true)), &rec("a", Some(true))));
    assert!(i.same_dedupe_fields(&rec("a", None), &rec("a", None)));
    assert!(!i.same_dedupe_fields(&rec("a", Some(true)), &rec("a", None)));
    assert!(!i.same_dedupe_fields(&rec("a", Some(true)), &rec("b", Some(true))));
}

#[test]
fn error_kinds_have_names() {
    assert_eq!(ErrorKind::NoSuchRecord("x".into()).name(), "NoSuchRecord");
    assert_eq!(ErrorKind::InvalidRecord(InvalidRecord::IdNotUnique).name(), "InvalidRecord::IdNotUnique");
    assert_eq!(ErrorKind::HmacMismatch.name(), "HmacMismatch");
}

#[test]
fn versions_are_written_and_read() {
    let v = SchemaVersion { major: 1, minor: 20, patch: 0 };
    assert_eq!(v.to_text(), "1.20.0");
    assert_eq!(SchemaVersion::parse("1.20.0"), Some(v));
    assert_eq!(SchemaVersion::parse("4294967295.0.7"), Some(SchemaVersion { major: u32::MAX, minor: 0, patch: 7 }));
    for bad in ["", "1", "1.2", "1.2.", "1..3", ".2.3", "1.2.3.4", "1.2.x", "4294967296.0.0", "-1.0.0", "1.2.3 "] {
        assert_eq!(SchemaVersion::parse(bad), None, "{:?}", bad);
    }
    assert!(v.compatible(&SchemaVersion { major: 1, minor: 0, patch: 9 }));
    assert!(!v.compatible(&SchemaVersion { major: 2, minor: 20, patch: 0 }));
}

#[test]
fn records_are_written_and_read_as_json() {
    let rec = LocalRecord {
        fields: members(vec![
            ("title", JsonValue::Text("a \"b\"".into())),
            ("n", JsonValue::Number(JsonNumber::NegInt(-3))),
            ("f", JsonValue::Number(JsonNumber::Float("2.5".into()))),
            ("list", JsonValue::Array(vec![JsonValue::Null, JsonValue::Bool(false), JsonValue::Number(JsonNumber::PosInt(7))])),
        ]),
    };
    let text = rec.to_text();
    assert_eq!(text, r#"{"f":2.5,"list":[null,false,7],"n":-3,"title":"a \"b\""}"#);
    let back = LocalRecord::from_text(&text).unwrap();
    assert_eq!(names(&back.fields), vec!["f", "list", "n", "title"]);
    assert!(value_eq(find_member(&back.fields, "list").unwrap(), find_member(&rec.fields, "list").unwrap()));
    assert!(value_eq(find_member(&back.fields, "f").unwrap(), &JsonValue::Number(JsonNumber::Float("2.5".into()))));
    assert_eq!(LocalRecord::empty().to_text(), "{}");
    assert!(LocalRecord::from_text("[]").is_none());
    assert!(LocalRecord::from_text("{").is_none());
}
