//! Query-string composition policy: how a route's query fields are decoded
//! from and encoded to the query component of a path.

use vstd::prelude::*;
use crate::RouteParseErr;

verus! {

/// Relies on serde_qs::from_str: decodes a query string into a value of `T`.
/// Nothing is assumed of the outcome; callers handle every case.
#[verifier::external_body]
fn qs_decode<T: serde::de::DeserializeOwned>(query: &str) -> Result<T, String> {
    serde_qs::from_str::<T>(query).map_err(|e| e.to_string())
}

/// Resolves a required query field from the outcome of a codec call.
/// `decoded` is `None` when the path carried no query string at all.
pub fn resolve_required_query<T>(decoded: Option<Result<T, String>>) -> (r: Result<
    T,
    RouteParseErr,
>)
    ensures
        match decoded {
            None => r matches Err(RouteParseErr::NoQueryString),
            Some(Ok(v)) => r matches Ok(w) && w == v,
            Some(Err(d)) => r matches Err(RouteParseErr::QueryParseErr(e)) && e == d,
        },
{
    match decoded {
        None => Err(RouteParseErr::NoQueryString),
        Some(Ok(v)) => Ok(v),
        Some(Err(d)) => Err(RouteParseErr::QueryParseErr(d)),
    }
}

/// Decodes a required query field: absence of a query string is an error,
/// and a failed decode is an error.
pub fn parse_required_query<T: serde::de::DeserializeOwned>(query: &Option<String>) -> (r: Result<
    T,
    RouteParseErr,
>)
    ensures
        query is None <==> r matches Err(RouteParseErr::NoQueryString),
        !(r matches Err(RouteParseErr::NoMatches)),
        !(r matches Err(RouteParseErr::ParamParseErr(_))),
{
    match query {
        None => resolve_required_query(None),
        Some(q) => resolve_required_query(Some(qs_decode::<T>(q.as_str()))),
    }
}

/// Resolves an optional query field from the outcome of a codec call: a
/// missing query string and a failed decode both resolve to absence, never
/// to an error. Callers cannot tell "not supplied" from "supplied but
/// malformed".
pub fn resolve_optional_query<T>(decoded: Option<Result<T, String>>) -> (r: Option<T>)
    ensures
        match decoded {
            None => r is None,
            Some(Ok(v)) => r matches Some(w) && w == v,
            Some(Err(d)) => r is None,
        },
{
    match decoded {
        None => None,
        Some(Ok(v)) => Some(v),
        Some(Err(_)) => None,
    }
}

/// Decodes an optional query field: absent when there is no query string
/// and when the query string fails to decode.
pub fn parse_optional_query<T: serde::de::DeserializeOwned>(query: &Option<String>) -> (r: Option<
    T,
>)
    ensures
        query is None ==> r is None,
{
    match query {
        None => resolve_optional_query(None),
        Some(q) => resolve_optional_query(Some(qs_decode::<T>(q.as_str()))),
    }
}

/// Relies on serde_qs::to_string: encodes a value as a query-string
/// fragment. Nothing is assumed of the outcome; a failed encode yields no
/// fragment, as the route value renderer expects.
#[verifier::external_body]
fn qs_encode<T: serde::Serialize>(value: &T) -> Option<String> {
    serde_qs::to_string(value).ok()
}

/// Encodes a required query field as a fragment; a failed encode
/// contributes no fragment.
pub fn encode_required_query<T: serde::Serialize>(value: &T) -> Option<String> {
    qs_encode(value)
}

/// Encodes an optional query field as a fragment: an absent value
/// contributes no fragment.
pub fn encode_optional_query<T: serde::Serialize>(value: &Option<T>) -> (r: Option<String>)
    ensures
        value is None ==> r is None,
{
    match value {
        None => None,
        Some(v) => qs_encode(v),
    }
}

} // verus!
