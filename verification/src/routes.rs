//! The route dispatcher: which of the two handlers a request reaches, and
//! the greeting handler itself.

use vstd::prelude::*;
use crate::http::{route_path, Method};
use crate::text::str_eq;

verus! {

/// Where a request is dispatched: one of the two handlers, or one of the
/// two framework-default rejections.
#[derive(Clone, Copy, PartialEq, Eq, Debug, Structural)]
pub enum Route {
    Hello,
    Metrics,
    MethodNotAllowed,
    NotFound,
}

/// The route a request target and method dispatch to: `GET` on `/` reaches
/// the greeting handler, `GET` on `/metrics` the metrics snapshot; a known
/// path with another method is refused, an unknown path is not found. The
/// query string never takes part.
pub open spec fn route_of_spec(method: Method, path: Seq<char>) -> Route {
    if route_path(path) == "/"@ {
        if method == Method::Get {
            Route::Hello
        } else {
            Route::MethodNotAllowed
        }
    } else if route_path(path) == "/metrics"@ {
        if method == Method::Get {
            Route::Metrics
        } else {
            Route::MethodNotAllowed
        }
    } else {
        Route::NotFound
    }
}

/// The status code each route answers with.
pub open spec fn status_of(r: Route) -> u16 {
    match r {
        Route::Hello => 200,
        Route::Metrics => 200,
        Route::MethodNotAllowed => 405,
        Route::NotFound => 404,
    }
}

/// Dispatches a method and request target to a route.
pub fn route_of(method: Method, path: &str) -> (r: Route)
    ensures
        r == route_of_spec(method, path@),
{
    let p = crate::http::strip_query(path);
    if str_eq(p, "/") {
        if matches!(method, Method::Get) {
            Route::Hello
        } else {
            Route::MethodNotAllowed
        }
    } else if str_eq(p, "/metrics") {
        if matches!(method, Method::Get) {
            Route::Metrics
        } else {
            Route::MethodNotAllowed
        }
    } else {
        Route::NotFound
    }
}

/// The greeting handler: its body never varies.
pub fn hello_world() -> (r: &'static str)
    ensures
        r@ == "Hello World!"@,
{
    "Hello World!"
}

} // verus!
