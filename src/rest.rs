use vstd::prelude::*;

verus! {

/// Page size of the default listing.
pub const DEFAULT_PAGE_SIZE: u32 = 50;

/// A query against one endpoint's cache: an optional filter, the fields to
/// order by, a page size and an offset.
#[derive(Clone, Debug, PartialEq, Eq)]
pub struct QueryExpression {
    pub filter: Option<String>,
    pub order_by: Vec<String>,
    pub limit: u32,
    pub skip: u32,
}

impl QueryExpression {
    pub fn new(filter: Option<String>, order_by: Vec<String>, limit: u32, skip: u32) -> (r: Self)
        ensures
            r.filter == filter,
            r.order_by == order_by,
            r.limit == limit,
            r.skip == skip,
    {
        QueryExpression { filter, order_by, limit, skip }
    }
}

/// The expression behind a plain listing: no filter, no ordering, the first
/// page of the default size.
pub fn default_list_expression() -> (r: QueryExpression)
    ensures
        r.filter is None,
        r.order_by@.len() == 0,
        r.limit == DEFAULT_PAGE_SIZE,
        r.skip == 0,
{
    QueryExpression::new(None, Vec::new(), DEFAULT_PAGE_SIZE, 0)
}

/// What the cache reports when a lookup or a query fails; each variant
/// carries the cache's message.
#[derive(Clone, Debug, PartialEq, Eq)]
pub enum CacheError {
    QueryError(String),
    QueryValidationError(String),
    InternalError(String),
    IndexError(String),
    PlanError(String),
    TypeError(String),
    SchemaIdentifierNotFound,
}

/// What a REST handler reports to its caller.
#[derive(Clone, Debug, PartialEq, Eq)]
pub enum ApiError {
    /// The requested record is absent (404).
    NotFound(CacheError),
    /// The query expression was rejected (400).
    InvalidQuery(String),
    /// A value had the wrong type (400).
    TypeError(String),
    /// Anything else that went wrong in the cache (500).
    InternalError(CacheError),
}

/// The HTTP status class of an error: client errors for a missing record, an
/// invalid query or a type error, a server error for the rest.
pub open spec fn status_of(e: ApiError) -> u16 {
    match e {
        ApiError::NotFound(_) => 404,
        ApiError::InvalidQuery(_) => 400,
        ApiError::TypeError(_) => 400,
        ApiError::InternalError(_) => 500,
    }
}

impl ApiError {
    pub fn status(&self) -> (r: u16)
        ensures
            r == status_of(*self),
    {
        match self {
            ApiError::NotFound(_) => 404,
            ApiError::InvalidQuery(_) => 400,
            ApiError::TypeError(_) => 400,
            ApiError::InternalError(_) => 500,
        }
    }
}

/// The error that a handler reports for a cache error: a query that found
/// nothing is `NotFound`, a rejected query or a wrong type is a client error,
/// anything else is internal and keeps the cause.
pub open spec fn api_error_of(e: CacheError) -> ApiError {
    match e {
        CacheError::QueryError(_) => ApiError::NotFound(e),
        CacheError::QueryValidationError(m) => ApiError::InvalidQuery(m),
        CacheError::TypeError(m) => ApiError::TypeError(m),
        _ => ApiError::InternalError(e),
    }
}

fn api_error(e: CacheError) -> (r: ApiError)
    ensures
        r == api_error_of(e),
{
    match e {
        CacheError::QueryError(_) => ApiError::NotFound(e),
        CacheError::QueryValidationError(m) => ApiError::InvalidQuery(m),
        CacheError::TypeError(m) => ApiError::TypeError(m),
        _ => ApiError::InternalError(e),
    }
}

/// Response of the single-record handler, from what the cache returned for
/// the key: the record itself, or the cache's error mapped by
/// `api_error_of` (an absent key is `NotFound`).
pub fn get<R>(looked_up: Result<R, CacheError>) -> (r: Result<R, ApiError>)
    ensures
        looked_up is Ok ==> r == Ok::<R, ApiError>(looked_up->Ok_0),
        looked_up is Err ==> r == Err::<R, ApiError>(api_error_of(looked_up->Err_0)),
{
    match looked_up {
        Ok(record) => Ok(record),
        Err(e) => Err(api_error(e)),
    }
}

/// Response of the listing handler, from what the cache returned for
/// `default_list_expression()`. A query that found nothing is an empty list,
/// not an error; every other cache error is internal.
pub fn list<R>(found: Result<Vec<R>, CacheError>) -> (r: Result<Vec<R>, ApiError>)
    ensures
        found is Ok ==> r == Ok::<Vec<R>, ApiError>(found->Ok_0),
        found matches Err(CacheError::QueryError(_)) ==> (r is Ok && r->Ok_0@.len() == 0),
        (found is Err && !(found matches Err(CacheError::QueryError(_)))) ==> r == Err::<
            Vec<R>,
            ApiError,
        >(ApiError::InternalError(found->Err_0)),
{
    match found {
        Ok(records) => Ok(records),
        Err(e) => match e {
            CacheError::QueryError(_) => Ok(Vec::new()),
            _ => Err(ApiError::InternalError(e)),
        },
    }
}

/// Response of the query handler, from what the cache returned for the
/// caller's expression: the records, an empty list where the query found
/// nothing, or the cache's error mapped by `api_error_of`.
pub fn query<R>(found: Result<Vec<R>, CacheError>) -> (r: Result<Vec<R>, ApiError>)
    ensures
        found is Ok ==> r == Ok::<Vec<R>, ApiError>(found->Ok_0),
        found matches Err(CacheError::QueryError(_)) ==> (r is Ok && r->Ok_0@.len() == 0),
        (found is Err && !(found matches Err(CacheError::QueryError(_)))) ==> r == Err::<
            Vec<R>,
            ApiError,
        >(api_error_of(found->Err_0)),
{
    match found {
        Ok(records) => Ok(records),
        Err(e) => match e {
            CacheError::QueryError(_) => Ok(Vec::new()),
            _ => Err(api_error(e)),
        },
    }
}

} // verus!
