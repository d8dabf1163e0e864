//! Why a route of the API does not match its documentation.

use vstd::prelude::*;

verus! {

/// Why a route does not match the API's documentation.
#[derive(Debug, Clone, Copy, PartialEq, Eq, Structural)]
pub enum RouteError {
    /// No route found in OpenAPI scheme
    NoRoute,
    /// No method found for specified route in OpenAPI scheme
    NoMethod,
    /// No `operation_id` found
    NoOperation,
    /// OpenAPI's `operation_id` doesn't match handler's name
    NoMatch,
}

} // verus!
