//! The request-level decisions of the site: what each page computes, where
//! each action leads, and the route table of each area.
pub mod admin;
pub mod dashboard;
pub mod ranking;
pub mod scan;

use vstd::prelude::*;

verus! {

/// The HTTP method of a route.
#[derive(Clone, Copy, Debug, PartialEq, Eq, Structural)]
pub enum Method {
    Get,
    Post,
}

/// A route of the site: its method and its path under the mount point.
pub struct RouteSpec {
    pub method: Method,
    pub path: String,
}

/// Why a page cannot be shown.
#[derive(Clone, Copy, Debug, PartialEq, Eq, Structural)]
pub enum PageError {
    /// The request names a group that does not exist.
    BadRequest,
}

pub fn route(method: Method, path: &str) -> (r: RouteSpec)
    ensures
        r.method == method,
        r.path@ == path@,
{
    RouteSpec { method, path: String::from_str(path) }
}

/// The site's front page leads to the dashboard.
pub fn index() -> (r: String)
    ensures
        r@ == "/dashboard"@,
{
    String::from_str("/dashboard")
}

} // verus!
