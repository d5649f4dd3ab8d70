use vstd::prelude::*;

use crate::collector::{distinct, has_name, names_view, SchemaMapping};
use crate::descriptor::{CompiledDescriptor, Operation};
use crate::rest::{CacheError, QueryExpression};

verus! {

/// The status of a failed RPC call.
#[derive(PartialEq, Eq, Structural, Clone, Copy, Debug)]
pub enum RpcStatus {
    NotFound,
    InvalidArgument,
    Internal,
    /// The surface that was asked about has not been built.
    Unavailable,
}

/// The status that a cache error becomes at the RPC boundary: a query that
/// found nothing is `NotFound`, a rejected query or a wrong type is
/// `InvalidArgument`, anything else is `Internal`.
pub open spec fn rpc_status_of(e: CacheError) -> RpcStatus {
    match e {
        CacheError::QueryError(_) => RpcStatus::NotFound,
        CacheError::QueryValidationError(_) => RpcStatus::InvalidArgument,
        CacheError::TypeError(_) => RpcStatus::InvalidArgument,
        _ => RpcStatus::Internal,
    }
}

pub fn status_for(e: &CacheError) -> (r: RpcStatus)
    ensures
        r == rpc_status_of(*e),
{
    match e {
        CacheError::QueryError(_) => RpcStatus::NotFound,
        CacheError::QueryValidationError(_) => RpcStatus::InvalidArgument,
        CacheError::TypeError(_) => RpcStatus::InvalidArgument,
        _ => RpcStatus::Internal,
    }
}

/// An inbound call on the generated surface: the endpoint and operation it is
/// routed to, and its typed arguments.
#[derive(Clone, Debug, PartialEq, Eq)]
pub struct RpcCall {
    pub endpoint: String,
    pub operation: Operation,
    pub key: String,
    pub filter: Option<String>,
    pub limit: u32,
    pub skip: u32,
}

/// What a call asks of the cache of the endpoint at position `endpoint`.
#[derive(Clone, Debug, PartialEq, Eq)]
pub enum CacheRequest {
    Get { endpoint: usize, key: String },
    Query { endpoint: usize, expression: QueryExpression },
}

/// Translates a call into the cache request it stands for; `NotFound` where
/// no endpoint of the descriptor has the call's name.
pub fn route(d: &CompiledDescriptor, call: RpcCall) -> (r: Result<CacheRequest, RpcStatus>)
    requires
        d.wf(),
    ensures
        (forall|i: int|
            0 <= i < d.endpoint_names().len() ==> d.endpoint_names()[i] != call.endpoint@) <==> r
            == Err::<CacheRequest, RpcStatus>(RpcStatus::NotFound),
        (exists|i: int|
            0 <= i < d.endpoint_names().len() && d.endpoint_names()[i] == call.endpoint@) ==> r is Ok,
        r matches Ok(req) ==> match req {
            CacheRequest::Get { endpoint, key } => {
                &&& call.operation == Operation::Get
                &&& endpoint < d.endpoint_names().len()
                &&& d.endpoint_names()[endpoint as int] == call.endpoint@
                &&& key == call.key
            },
            CacheRequest::Query { endpoint, expression } => {
                &&& call.operation == Operation::List
                &&& endpoint < d.endpoint_names().len()
                &&& d.endpoint_names()[endpoint as int] == call.endpoint@
                &&& expression.filter == call.filter
                &&& expression.order_by@.len() == 0
                &&& expression.limit == call.limit
                &&& expression.skip == call.skip
            },
        },
{
    match d.resolve(&call.endpoint) {
        None => Err(RpcStatus::NotFound),
        Some(endpoint) => match call.operation {
            Operation::Get => Ok(CacheRequest::Get { endpoint, key: call.key }),
            Operation::List => Ok(
                CacheRequest::Query {
                    endpoint,
                    expression: QueryExpression::new(call.filter, Vec::new(), call.limit, call.skip),
                },
            ),
        },
    }
}

/// The reply to a lookup, from what the cache returned: the record, or the
/// error's status.
pub fn get_reply<R>(looked_up: Result<R, CacheError>) -> (r: Result<R, RpcStatus>)
    ensures
        looked_up is Ok ==> r == Ok::<R, RpcStatus>(looked_up->Ok_0),
        looked_up is Err ==> r == Err::<R, RpcStatus>(rpc_status_of(looked_up->Err_0)),
{
    match looked_up {
        Ok(record) => Ok(record),
        Err(e) => Err(status_for(&e)),
    }
}

/// The reply to a listing, from what the cache returned: the records, an
/// empty list where the query found nothing, or the error's status.
pub fn list_reply<R>(found: Result<Vec<R>, CacheError>) -> (r: Result<Vec<R>, RpcStatus>)
    ensures
        found is Ok ==> r == Ok::<Vec<R>, RpcStatus>(found->Ok_0),
        found matches Err(CacheError::QueryError(_)) ==> (r is Ok && r->Ok_0@.len() == 0),
        (found is Err && !(found matches Err(CacheError::QueryError(_)))) ==> r == Err::<
            Vec<R>,
            RpcStatus,
        >(rpc_status_of(found->Err_0)),
{
    match found {
        Ok(records) => Ok(records),
        Err(e) => match e {
            CacheError::QueryError(_) => Ok(Vec::new()),
            _ => Err(status_for(&e)),
        },
    }
}

/// Serves the compiled descriptor to clients that discover the surface at
/// run time.
pub struct IntrospectionService {
    descriptor: Option<CompiledDescriptor>,
}

impl IntrospectionService {
    /// The descriptor served, if one has been built.
    pub closed spec fn current(&self) -> Option<CompiledDescriptor> {
        self.descriptor
    }

    /// A service with nothing built yet.
    pub fn unbuilt() -> (r: Self)
        ensures
            r.current() is None,
    {
        IntrospectionService { descriptor: None }
    }

    /// A service for the compiled descriptor `d`.
    pub fn new(d: CompiledDescriptor) -> (r: Self)
        ensures
            r.current() == Some(d),
    {
        IntrospectionService { descriptor: Some(d) }
    }

    /// The endpoints of the served surface, in order; `Unavailable` before
    /// any build.
    pub fn describe(&self) -> (r: Result<Vec<String>, RpcStatus>)
        ensures
            self.current() is None <==> r == Err::<Vec<String>, RpcStatus>(RpcStatus::Unavailable),
            self.current() is Some ==> r is Ok,
            r matches Ok(names) ==> self.current() is Some && names_view(names@)
                == self.current()->Some_0.endpoint_names(),
    {
        match &self.descriptor {
            None => Err(RpcStatus::Unavailable),
            Some(d) => Ok(d.service_names()),
        }
    }
}

/// What introspection reports for a descriptor compiled from a mapping names
/// exactly the mapping's endpoints: each of them once, and no other.
pub proof fn lemma_introspection_lists_mapping_names(
    m: SchemaMapping,
    d: CompiledDescriptor,
    listed: Seq<String>,
)
    requires
        m.wf(),
        d.endpoint_names() == names_view(m.names@),
        names_view(listed) == d.endpoint_names(),
    ensures
        listed.len() == m.names@.len(),
        forall|n: Seq<char>| has_name(listed, n) <==> has_name(m.names@, n),
        distinct(names_view(listed)),
{
    assert(names_view(listed).len() == listed.len());
    assert(names_view(m.names@).len() == m.names@.len());
    assert forall|n: Seq<char>| has_name(listed, n) implies has_name(m.names@, n) by {
        let i = choose|i: int| 0 <= i < listed.len() && (#[trigger] listed[i])@ == n;
        assert(names_view(listed)[i] == listed[i]@);
        assert(names_view(m.names@)[i] == m.names@[i]@);
        assert(m.names@[i]@ == n);
    }
    assert forall|n: Seq<char>| has_name(m.names@, n) implies has_name(listed, n) by {
        let j = choose|j: int| 0 <= j < m.names@.len() && (#[trigger] m.names@[j])@ == n;
        assert(names_view(listed)[j] == listed[j]@);
        assert(names_view(m.names@)[j] == m.names@[j]@);
        assert(listed[j]@ == n);
    }
}

} // verus!
