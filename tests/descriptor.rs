use dozer_api::collector::SchemaMapping;
use dozer_api::descriptor::{check_schema, compile, Operation, SchemaProblem};
use dozer_api::dispatch::{route, CacheRequest, IntrospectionService, RpcCall, RpcStatus};
use dozer_api::events::{FieldDef, FieldType, SchemaDef};

fn field(name: &str, typ: FieldType) -> FieldDef {
    FieldDef { name: name.to_string(), typ, nullable: true }
}

fn good() -> SchemaDef {
    SchemaDef { fields: vec![field("id", FieldType::UInt), field("name", FieldType::String)], primary_index: vec![0] }
}

fn mapping(entries: Vec<(&str, SchemaDef)>) -> SchemaMapping {
    let mut names = Vec::new();
    let mut schemas = Vec::new();
    for (n, s) in entries {
        names.push(n.to_string());
        schemas.push(s);
    }
    SchemaMapping { names, schemas }
}

#[test]
fn valid_schema_has_no_problem() {
    assert_eq!(check_schema(&good()), None);
}

#[test]
fn each_defect_is_reported() {
    let none = SchemaDef { fields: vec![], primary_index: vec![] };
    assert_eq!(check_schema(&none), Some(SchemaProblem::NoFields));
    let unnamed = SchemaDef { fields: vec![field("id", FieldType::Int), field("", FieldType::Int)], primary_index: vec![] };
    assert_eq!(check_schema(&unnamed), Some(SchemaProblem::EmptyFieldName(1)));
    let unsupported = SchemaDef { fields: vec![field("x", FieldType::Unsupported)], primary_index: vec![] };
    assert_eq!(check_schema(&unsupported), Some(SchemaProblem::UnsupportedType(0)));
    let dup = SchemaDef {
        fields: vec![field("a", FieldType::Int), field("b", FieldType::Int), field("a", FieldType::Text)],
        primary_index: vec![],
    };
    assert_eq!(check_schema(&dup), Some(SchemaProblem::DuplicateField(2)));
    let key = SchemaDef { fields: vec![field("a", FieldType::Int)], primary_index: vec![0, 1] };
    assert_eq!(check_schema(&key), Some(SchemaProblem::PrimaryIndexOutOfRange(1)));
}

#[test]
fn invalid_schema_fails_compilation() {
    let bad = SchemaDef { fields: vec![field("a", FieldType::Int), field("a", FieldType::Int)], primary_index: vec![] };
    let err = compile(mapping(vec![("users", good()), ("orders", bad), ("items", SchemaDef { fields: vec![], primary_index: vec![] })]))
        .unwrap_err();
    assert_eq!(err.endpoint, "orders");
    assert_eq!(err.problem, SchemaProblem::DuplicateField(1));
}

#[test]
fn introspection_lists_exactly_compiled_endpoints() {
    let d = compile(mapping(vec![("users", good()), ("orders", good())])).unwrap();
    assert_eq!(d.service_names(), vec!["users".to_string(), "orders".to_string()]);
    let svc = IntrospectionService::new(d);
    assert_eq!(svc.describe().unwrap(), vec!["users".to_string(), "orders".to_string()]);
}

#[test]
fn introspection_before_build_is_unavailable() {
    assert_eq!(IntrospectionService::unbuilt().describe(), Err(RpcStatus::Unavailable));
}

#[test]
fn compiled_descriptor_keeps_schemas() {
    let other = SchemaDef { fields: vec![field("k", FieldType::Date)], primary_index: vec![] };
    let d = compile(mapping(vec![("users", good()), ("orders", other.clone())])).unwrap();
    assert_eq!(d.resolve(&"orders".to_string()), Some(1));
    assert_eq!(d.resolve(&"nobody".to_string()), None);
    assert_eq!(*d.schema(1), other);
}

fn call(endpoint: &str, operation: Operation) -> RpcCall {
    RpcCall {
        endpoint: endpoint.to_string(),
        operation,
        key: "42".to_string(),
        filter: Some("{\"id\": 1}".to_string()),
        limit: 10,
        skip: 20,
    }
}

#[test]
fn routing_translates_calls() {
    let d = compile(mapping(vec![("users", good()), ("orders", good())])).unwrap();
    match route(&d, call("orders", Operation::Get)).unwrap() {
        CacheRequest::Get { endpoint, key } => {
            assert_eq!(endpoint, 1);
            assert_eq!(key, "42");
        }
        other => panic!("unexpected {:?}", other),
    }
    match route(&d, call("users", Operation::List)).unwrap() {
        CacheRequest::Query { endpoint, expression } => {
            assert_eq!(endpoint, 0);
            assert_eq!(expression.filter, Some("{\"id\": 1}".to_string()));
            assert!(expression.order_by.is_empty());
            assert_eq!(expression.limit, 10);
            assert_eq!(expression.skip, 20);
        }
        other => panic!("unexpected {:?}", other),
    }
    assert_eq!(route(&d, call("items", Operation::Get)), Err(RpcStatus::NotFound));
}
