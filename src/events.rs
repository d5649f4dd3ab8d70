use vstd::prelude::*;

verus! {

/// The type of one field of an endpoint's schema.
#[derive(PartialEq, Eq, Structural, Clone, Copy, Debug)]
pub enum FieldType {
    UInt,
    Int,
    Float,
    Boolean,
    String,
    Text,
    Binary,
    Decimal,
    Timestamp,
    Date,
    Bson,
    /// A type that has no wire representation.
    Unsupported,
}

/// One field of a schema: its name, its type and whether it may be null.
#[derive(Clone, Debug, PartialEq, Eq)]
pub struct FieldDef {
    pub name: String,
    pub typ: FieldType,
    pub nullable: bool,
}

/// The structural definition of one endpoint: its fields, in order, and the
/// positions of the fields that make up its primary key.
#[derive(Clone, Debug, PartialEq, Eq)]
pub struct SchemaDef {
    pub fields: Vec<FieldDef>,
    pub primary_index: Vec<usize>,
}

/// What a pipeline event carries.
#[derive(Clone, Debug, PartialEq, Eq)]
pub enum ApiEvent {
    /// The current schema of the endpoint.
    Schema(SchemaDef),
    /// A change to the endpoint's records, identified by its sequence number.
    Operation(u64),
}

/// An event of the pipeline: the endpoint it is about, and its payload, absent
/// where the payload could not be read.
#[derive(Clone, Debug, PartialEq, Eq)]
pub struct PipelineRequest {
    pub endpoint: String,
    pub api_event: Option<ApiEvent>,
}

/// Whether `e` announces a schema for the endpoint named `name`.
pub open spec fn announces(e: PipelineRequest, name: Seq<char>) -> bool {
    e.endpoint@ == name && e.api_event matches Some(ApiEvent::Schema(_))
}

/// The schema that `e` announces; meaningful where `e` announces one.
pub open spec fn announced_schema(e: PipelineRequest) -> SchemaDef
    recommends
        e.api_event matches Some(ApiEvent::Schema(_)),
{
    match e.api_event {
        Some(ApiEvent::Schema(s)) => s,
        _ => arbitrary(),
    }
}

/// The most recent schema announced for `name` among `evs`, if any.
pub open spec fn last_announced(evs: Seq<PipelineRequest>, name: Seq<char>) -> Option<SchemaDef>
    decreases evs.len(),
{
    if evs.len() == 0 {
        None
    } else if announces(evs.last(), name) {
        Some(announced_schema(evs.last()))
    } else {
        last_announced(evs.drop_last(), name)
    }
}

} // verus!
