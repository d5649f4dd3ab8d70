use vstd::prelude::*;

use crate::collector::{distinct, names_view, SchemaMapping};
use crate::events::{FieldDef, FieldType, SchemaDef};

verus! {

/// What makes a schema impossible to compile.
#[derive(PartialEq, Eq, Structural, Clone, Copy, Debug)]
pub enum SchemaProblem {
    /// The schema has no field.
    NoFields,
    /// The field at this position has an empty name.
    EmptyFieldName(usize),
    /// The field at this position has a type with no wire representation.
    UnsupportedType(usize),
    /// The field at this position has the name of an earlier field.
    DuplicateField(usize),
    /// The primary key entry at this position names no field.
    PrimaryIndexOutOfRange(usize),
}

/// Whether `p` describes a defect that `s` has.
pub open spec fn has_problem(s: SchemaDef, p: SchemaProblem) -> bool {
    let f = s.fields@;
    match p {
        SchemaProblem::NoFields => f.len() == 0,
        SchemaProblem::EmptyFieldName(i) => i < f.len() && f[i as int].name@.len() == 0,
        SchemaProblem::UnsupportedType(i) => i < f.len() && f[i as int].typ == FieldType::Unsupported,
        SchemaProblem::DuplicateField(i) => i < f.len() && exists|j: int|
            0 <= j < i && f[j].name@ == f[i as int].name@,
        SchemaProblem::PrimaryIndexOutOfRange(k) => k < s.primary_index@.len()
            && s.primary_index@[k as int] >= f.len(),
    }
}

/// A schema that can be compiled: at least one field, every field named and
/// of a supported type, no two fields of one name, and a primary key made of
/// existing fields.
pub open spec fn schema_valid(s: SchemaDef) -> bool {
    let f = s.fields@;
    &&& f.len() > 0
    &&& forall|i: int| 0 <= i < f.len() ==> (#[trigger] f[i]).name@.len() > 0
    &&& forall|i: int| 0 <= i < f.len() ==> (#[trigger] f[i]).typ != FieldType::Unsupported
    &&& forall|i: int, j: int| 0 <= j < i < f.len() ==> f[j].name@ != f[i].name@
    &&& forall|k: int|
        0 <= k < s.primary_index@.len() ==> (#[trigger] s.primary_index@[k]) < f.len()
}

/// Why compiling a schema mapping failed: the endpoint whose schema is
/// defective, and its defect.
#[derive(Clone, Debug, PartialEq, Eq)]
pub struct CompilationError {
    pub endpoint: String,
    pub problem: SchemaProblem,
}

/// Finds a defect of `s`, if it has one.
pub fn check_schema(s: &SchemaDef) -> (r: Option<SchemaProblem>)
    ensures
        r is None <==> schema_valid(*s),
        r matches Some(p) ==> has_problem(*s, p),
{
    let fields = &s.fields;
    if fields.len() == 0 {
        return Some(SchemaProblem::NoFields);
    }
    let mut i: usize = 0;
    while i < fields.len()
        invariant
            fields == s.fields,
            i <= fields@.len(),
            forall|a: int| 0 <= a < i ==> (#[trigger] fields@[a]).name@.len() > 0,
            forall|a: int| 0 <= a < i ==> (#[trigger] fields@[a]).typ != FieldType::Unsupported,
            forall|a: int, b: int| 0 <= b < a < i ==> fields@[b].name@ != fields@[a].name@,
        decreases fields@.len() - i,
    {
        let f: &FieldDef = &fields[i];
        if f.name.as_str().is_empty() {
            return Some(SchemaProblem::EmptyFieldName(i));
        }
        if f.typ == FieldType::Unsupported {
            return Some(SchemaProblem::UnsupportedType(i));
        }
        let mut j: usize = 0;
        while j < i
            invariant
                fields == s.fields,
                i < fields@.len(),
                j <= i,
                f == fields@[i as int],
                forall|b: int| 0 <= b < j ==> fields@[b].name@ != fields@[i as int].name@,
            decreases i - j,
        {
            if fields[j].name == f.name {
                return Some(SchemaProblem::DuplicateField(i));
            }
            j = j + 1;
        }
        i = i + 1;
    }
    let keys = &s.primary_index;
    let mut k: usize = 0;
    while k < keys.len()
        invariant
            keys == s.primary_index,
            fields == s.fields,
            k <= keys@.len(),
            forall|a: int| 0 <= a < k ==> (#[trigger] keys@[a]) < fields@.len(),
        decreases keys@.len() - k,
    {
        if keys[k] >= fields.len() {
            return Some(SchemaProblem::PrimaryIndexOutOfRange(k));
        }
        k = k + 1;
    }
    None
}

/// The compiled shape of the RPC surface: for each endpoint, in order, its
/// name and its schema, all of them valid.
#[derive(Debug)]
pub struct CompiledDescriptor {
    endpoints: Vec<String>,
    schemas: Vec<SchemaDef>,
}

/// The operations synthesized for every endpoint.
#[derive(PartialEq, Eq, Structural, Clone, Copy, Debug)]
pub enum Operation {
    /// Point lookup by key.
    Get,
    /// Filtered, paginated listing.
    List,
}

impl CompiledDescriptor {
    /// The endpoint names, in order.
    pub closed spec fn endpoint_names(&self) -> Seq<Seq<char>> {
        names_view(self.endpoints@)
    }

    /// The schemas, at the positions of their endpoints.
    pub closed spec fn schemas(&self) -> Seq<SchemaDef> {
        self.schemas@
    }

    pub closed spec fn wf(&self) -> bool {
        &&& self.endpoints@.len() == self.schemas@.len()
        &&& distinct(self.endpoint_names())
        &&& forall|i: int| 0 <= i < self.schemas@.len() ==> schema_valid(#[trigger] self.schemas@[i])
    }

    /// The endpoint names, in order, as the introspection service lists them.
    pub fn service_names(&self) -> (r: Vec<String>)
        ensures
            names_view(r@) == self.endpoint_names(),
    {
        let mut r: Vec<String> = Vec::new();
        let mut i: usize = 0;
        while i < self.endpoints.len()
            invariant
                i <= self.endpoints@.len(),
                r@.len() == i,
                forall|k: int| 0 <= k < i ==> (#[trigger] r@[k])@ == self.endpoints@[k]@,
            decreases self.endpoints@.len() - i,
        {
            let name = self.endpoints[i].clone();
            r.push(name);
            i = i + 1;
        }
        assert(names_view(r@) =~= names_view(self.endpoints@));
        r
    }

    /// Position of the endpoint `name`, or `None` where no endpoint has it.
    pub fn resolve(&self, name: &String) -> (r: Option<usize>)
        requires
            self.wf(),
        ensures
            r matches Some(i) ==> i < self.endpoint_names().len() && self.endpoint_names()[i as int]
                == name@,
            r is None <==> forall|i: int|
                0 <= i < self.endpoint_names().len() ==> self.endpoint_names()[i] != name@,
    {
        let mut i: usize = 0;
        while i < self.endpoints.len()
            invariant
                i <= self.endpoints@.len(),
                forall|k: int| 0 <= k < i ==> self.endpoint_names()[k] != name@,
            decreases self.endpoints@.len() - i,
        {
            if self.endpoints[i] == *name {
                assert(self.endpoint_names()[i as int] == name@);
                return Some(i);
            }
            i = i + 1;
        }
        None
    }

    /// The schema of the endpoint at position `i`.
    pub fn schema(&self, i: usize) -> (r: &SchemaDef)
        requires
            i < self.schemas().len(),
        ensures
            *r == self.schemas()[i as int],
    {
        &self.schemas[i]
    }
}

/// Compiles a complete schema mapping. Fails, and builds nothing, where some
/// schema is defective; then the error names the first such endpoint.
pub fn compile(mapping: SchemaMapping) -> (r: Result<CompiledDescriptor, CompilationError>)
    requires
        mapping.wf(),
    ensures
        r is Ok <==> forall|i: int|
            0 <= i < mapping.schemas@.len() ==> schema_valid(#[trigger] mapping.schemas@[i]),
        r matches Ok(d) ==> {
            &&& d.wf()
            &&& d.endpoint_names() == names_view(mapping.names@)
            &&& d.schemas() == mapping.schemas@
        },
        r matches Err(e) ==> exists|i: int|
            0 <= i < mapping.schemas@.len() && i < mapping.names@.len() && e.endpoint@ == mapping.names@[i]@ && has_problem(
                mapping.schemas@[i],
                e.problem,
            ) && forall|k: int| 0 <= k < i ==> schema_valid(#[trigger] mapping.schemas@[k]),
{
    let mut i: usize = 0;
    while i < mapping.schemas.len()
        invariant
            mapping.wf(),
            i <= mapping.schemas@.len(),
            forall|k: int| 0 <= k < i ==> schema_valid(#[trigger] mapping.schemas@[k]),
        decreases mapping.schemas@.len() - i,
    {
        match check_schema(&mapping.schemas[i]) {
            Some(problem) => {
                let endpoint = mapping.names[i].clone();
                return Err(CompilationError { endpoint, problem });
            },
            None => {},
        }
        i = i + 1;
    }
    let SchemaMapping { names, schemas } = mapping;
    Ok(CompiledDescriptor { endpoints: names, schemas })
}

} // verus!
