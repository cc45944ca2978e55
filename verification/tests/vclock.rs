use replica_store::error::ErrorKind;
use replica_store::json::{JsonNumber, JsonValue, Member};
use replica_store::vclock::{VClock, VClockEntry, VClockOrdering};

fn clock(entries: &[(&str, u64)]) -> VClock {
    VClock::from_entries(entries.iter().map(|(id, c)| VClockEntry { id: id.to_string(), counter: *c }).collect())
        .unwrap()
}

#[test]
fn new_clock_has_one_entry() {
    let c = VClock::new("C1".to_string(), 3);
    assert_eq!(c.len(), 1);
    assert_eq!(c.get("C1"), 3);
    assert_eq!(c.get("C2"), 0);
    assert_eq!(VClock::new("C1".to_string(), 0).len(), 0);
    assert_eq!(VClock::new_empty().to_text(), "{}");
}

#[test]
fn apply_sets_one_entry_and_keeps_the_rest() {
    let c = clock(&[("C2", 5)]).apply("C1".to_string(), 8).unwrap();
    assert_eq!((c.get("C1"), c.get("C2")), (8, 5));
    let c = c.apply("C2".to_string(), 6).unwrap().apply("C3".to_string(), 1).unwrap();
    assert_eq!((c.get("C1"), c.get("C2"), c.get("C3")), (8, 6, 1));
    assert_eq!(c.len(), 3);
}

#[test]
fn apply_must_strictly_increase() {
    let c = clock(&[("C1", 4)]);
    assert!(matches!(c.clone().apply("C1".to_string(), 4), Err(ErrorKind::CausalityViolation)));
    assert!(matches!(c.clone().apply("C1".to_string(), 3), Err(ErrorKind::CausalityViolation)));
    assert!(matches!(c.clone().apply("C9".to_string(), 0), Err(ErrorKind::CausalityViolation)));
    assert_eq!(c.apply("C1".to_string(), 5).unwrap().get("C1"), 5);
}

#[test]
fn compare_is_component_wise() {
    let a = clock(&[("C1", 1), ("C2", 2)]);
    let b = clock(&[("C1", 1), ("C2", 3)]);
    let c = clock(&[("C1", 2), ("C2", 2)]);
    let d = clock(&[("C2", 2), ("C1", 1)]);
    assert_eq!(a.compare(&b), VClockOrdering::Less);
    assert_eq!(b.compare(&a), VClockOrdering::Greater);
    assert_eq!(b.compare(&c), VClockOrdering::Concurrent);
    assert_eq!(a.compare(&d), VClockOrdering::Equal);
    assert_eq!(VClock::new_empty().compare(&a), VClockOrdering::Less);
    assert_eq!(clock(&[("C3", 1)]).compare(&a), VClockOrdering::Concurrent);
    assert!(a.le(&b) && !b.le(&a));
}

#[test]
fn successive_writes_compare_less() {
    let w1 = VClock::new("C1".to_string(), 1);
    let w2 = w1.clone().apply("C1".to_string(), 2).unwrap();
    let w3 = w2.clone().apply("C1".to_string(), 7).unwrap();
    assert_eq!(w1.compare(&w2), VClockOrdering::Less);
    assert_eq!(w2.compare(&w3), VClockOrdering::Less);
    assert_eq!(w1.compare(&w3), VClockOrdering::Less);
}

#[test]
fn text_is_sorted_by_client_id() {
    let a = clock(&[("b", 2), ("a", 1), ("ab", 30)]);
    let b = VClock::new("ab".to_string(), 30).apply("a".to_string(), 1).unwrap().apply("b".to_string(), 2).unwrap();
    assert_eq!(a.to_text(), r#"{"a":1,"ab":30,"b":2}"#);
    assert_eq!(a.to_text(), b.to_text());
    assert_eq!(clock(&[("q\"", 18446744073709551615)]).to_text(), r#"{"q\"":18446744073709551615}"#);
    assert_eq!(a.entry(1).id, "ab");
    assert_eq!(a.entry(1).counter, 30);
}

#[test]
fn text_reads_back() {
    let a = clock(&[("C2", 5), ("C1", 8)]);
    let back = VClock::from_text(&a.to_text()).unwrap();
    assert_eq!(back.compare(&a), VClockOrdering::Equal);
    assert_eq!(back.to_text(), r#"{"C1":8,"C2":5}"#);
    assert_eq!(VClock::from_text(r#" { "x" : 0 } "#).unwrap().len(), 0);
    assert!(VClock::from_text(r#"{"x":-1}"#).is_none());
    assert!(VClock::from_text(r#"{"x":1.5}"#).is_none());
    assert!(VClock::from_text(r#"{"x":"1"}"#).is_none());
    assert!(VClock::from_text(r#"[1]"#).is_none());
    assert!(VClock::from_text("{").is_none());
}

#[test]
fn entries_with_a_repeated_id_make_no_clock() {
    let twice = vec![
        VClockEntry { id: "a".into(), counter: 1 },
        VClockEntry { id: "a".into(), counter: 2 },
    ];
    assert!(VClock::from_entries(twice).is_none());
    let tree = JsonValue::Object(vec![
        Member { name: "a".into(), value: JsonValue::Number(JsonNumber::PosInt(1)) },
        Member { name: "a".into(), value: JsonValue::Number(JsonNumber::PosInt(2)) },
    ]);
    assert!(VClock::from_value(&tree).is_none());
}
