use dozer_api::collector::{collect, SchemaCollector};
use dozer_api::events::{ApiEvent, FieldDef, FieldType, PipelineRequest, SchemaDef};
use dozer_api::server::registration;

fn schema(field: &str) -> SchemaDef {
    SchemaDef {
        fields: vec![FieldDef { name: field.to_string(), typ: FieldType::String, nullable: false }],
        primary_index: vec![0],
    }
}

fn announce(endpoint: &str, field: &str) -> PipelineRequest {
    PipelineRequest { endpoint: endpoint.to_string(), api_event: Some(ApiEvent::Schema(schema(field))) }
}

fn operation(endpoint: &str, seq: u64) -> PipelineRequest {
    PipelineRequest { endpoint: endpoint.to_string(), api_event: Some(ApiEvent::Operation(seq)) }
}

fn names(list: &[&str]) -> Vec<String> {
    list.iter().map(|s| s.to_string()).collect()
}

#[test]
fn duplicate_announcement_keeps_latest_schema() {
    // Both names have a schema after the second event, so the collector
    // stops there and the later duplicate is never consumed.
    let events = vec![announce("orders", "o1"), announce("users", "u"), announce("orders", "o2")];
    let (k, m) = collect(names(&["users", "orders"]), events).unwrap();
    assert_eq!(k, 2);
    assert_eq!(m.names, names(&["users", "orders"]));
    assert_eq!(m.schemas, vec![schema("u"), schema("o1")]);

    // A duplicate that arrives before completion overwrites the earlier one.
    let events = vec![announce("orders", "o1"), announce("orders", "o2"), announce("users", "u")];
    let (k, m) = collect(names(&["users", "orders"]), events).unwrap();
    assert_eq!(k, 3);
    assert_eq!(m.schemas, vec![schema("u"), schema("o2")]);
}

#[test]
fn completes_at_first_event_that_covers_all_names() {
    let events = vec![
        announce("users", "u1"),
        announce("users", "u2"),
        operation("orders", 1),
        announce("orders", "o"),
        announce("users", "u3"),
    ];
    let (k, m) = collect(names(&["users", "orders"]), events).unwrap();
    assert_eq!(k, 4);
    assert_eq!(m.schemas, vec![schema("u2"), schema("o")]);
}

#[test]
fn arrival_order_does_not_matter() {
    let a = collect(names(&["a", "b", "c"]), vec![announce("c", "x"), announce("a", "y"), announce("b", "z")]);
    let b = collect(names(&["a", "b", "c"]), vec![announce("b", "z"), announce("c", "x"), announce("a", "y")]);
    let (ka, ma) = a.unwrap();
    let (kb, mb) = b.unwrap();
    assert_eq!(ka, 3);
    assert_eq!(kb, 3);
    assert_eq!(ma.schemas, mb.schemas);
}

#[test]
fn unregistered_announcement_is_ignored() {
    let events = vec![announce("users", "u"), announce("ghost", "g"), announce("ghost", "h")];
    assert!(collect(names(&["users", "orders"]), events).is_none());
    let with = vec![announce("ghost", "g"), announce("users", "u"), announce("other", "h"), announce("orders", "o")];
    let without = vec![announce("users", "u"), announce("orders", "o")];
    let (kw, mw) = collect(names(&["users", "orders"]), with).unwrap();
    let (ko, mo) = collect(names(&["users", "orders"]), without).unwrap();
    assert_eq!(kw, 4);
    assert_eq!(ko, 2);
    assert_eq!(mw.schemas, mo.schemas);

    let mut c = SchemaCollector::new(names(&["users"]));
    c.observe(announce("ghost", "g"));
    assert!(!c.is_complete());
    c.observe(announce("users", "u"));
    assert!(c.is_complete());
    let m = c.into_mapping();
    assert_eq!(m.schemas, vec![schema("u")]);
}

#[test]
fn unreadable_payload_does_not_count() {
    let events = vec![PipelineRequest { endpoint: "users".to_string(), api_event: None }];
    assert!(collect(names(&["users"]), events).is_none());
}

#[test]
fn empty_registration_is_complete_at_once() {
    let (k, m) = collect(Vec::new(), vec![announce("users", "u")]).unwrap();
    assert_eq!(k, 0);
    assert!(m.names.is_empty());
    assert!(m.schemas.is_empty());
}

#[test]
fn missing_announcement_never_completes() {
    let events = vec![announce("users", "u"), operation("users", 2), announce("users", "v")];
    assert!(collect(names(&["users", "orders"]), events).is_none());
}

#[test]
fn registration_keeps_distinct_names_in_order() {
    assert_eq!(registration(&names(&["orders", "users", "items"])), names(&["orders", "users", "items"]));
}

#[test]
fn registration_merges_duplicate_names() {
    let r = registration(&names(&["users", "orders", "users", "items", "orders"]));
    assert_eq!(r, names(&["users", "orders", "items"]));
    assert!(registration(&Vec::new()).is_empty());
}
