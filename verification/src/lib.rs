//! Route-template compilation, matching, and route-value composition.
//!
//! A route template such as `/users/:user_id` is compiled into a matcher
//! pattern and a format string; concrete request paths are matched against
//! the compiled template to extract named parameter values, and parameter
//! values are rendered back into a canonical path string.

use vstd::prelude::*;

pub mod chars;
pub mod ident;
pub mod laws;
pub mod matcher;
pub mod params;
pub mod query;
pub mod reconcile;
pub mod render;
pub mod route;
pub mod template;

verus! {

/// A template-compilation error: the template string itself is malformed.
#[derive(Debug, Clone, PartialEq, Eq)]
pub enum PathToRegexError {
    /// The template does not begin with `/`.
    MissingLeadingForwardSlash,
    /// The template contains a character outside the ASCII range.
    NonAsciiChars,
    /// A `:name` parameter is not a legal identifier; carries the name.
    InvalidIdentifier(String),
    /// The template ends with a dangling `/` after its last segment.
    InvalidTrailingSlash,
}

/// A runtime route-parsing error: a concrete path or query string did not
/// conform to the route shape.
#[derive(Debug)]
pub enum RouteParseErr {
    /// The path does not match the compiled template.
    NoMatches,
    /// A required query field was declared but the path has no query string.
    NoQueryString,
    /// A path parameter's raw capture could not be converted to its field's
    /// value type; carries a description.
    ParamParseErr(String),
    /// A required query field's query string failed to decode; carries a
    /// description.
    QueryParseErr(String),
}

/// A route type: it knows the matcher pattern of its template and can
/// render its query fields as a query string. Implemented by route types
/// that host applications build on top of the route machinery here.
pub trait AppRoute {
    /// The matcher pattern of this route's template.
    fn path_pattern() -> String;

    /// The `&`-joined encoded query fields of this value, if any fragment
    /// is present.
    fn query_string(&self) -> Option<String>;
}

} // verus!
