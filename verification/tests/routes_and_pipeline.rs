use hello_metrics::http::{Method, Request};
use hello_metrics::logging::Level;
use hello_metrics::metrics::MetricsState;
use hello_metrics::pipeline::process;
use hello_metrics::routes::{hello_world, route_of, Route};

fn request(method: Method, path: &str) -> Request {
    Request { method, path: String::from(path), headers: Vec::new(), body: Vec::new() }
}

#[test]
fn hello_handler_body() {
    assert_eq!(hello_world(), "Hello World!");
}

#[test]
fn hello_route_always_ok() {
    let mut m = MetricsState::new();
    let req = request(Method::Get, "/");
    let (resp, log) = process(&mut m, Level::Error, &req, 5);
    assert_eq!(resp.status, 200);
    assert_eq!(resp.body, "Hello World!");
    assert_eq!(resp.content_type, "text/plain; charset=utf-8");
    assert!(log.is_none());
}

#[test]
fn hello_route_ignores_query_and_headers() {
    let mut m = MetricsState::new();
    let req = Request {
        method: Method::Get,
        path: String::from("/?greeting=bonjour&x=2"),
        headers: vec![
            (String::from("accept"), String::from("text/html")),
            (String::from("x-forwarded-for"), String::from("203.0.113.9")),
        ],
        body: vec![1, 2, 3],
    };
    let (resp, _) = process(&mut m, Level::Error, &req, 11);
    assert_eq!(resp.status, 200);
    assert_eq!(resp.body, "Hello World!");
}

#[test]
fn unknown_path_is_not_found() {
    let mut m = MetricsState::new();
    let (resp, _) = process(&mut m, Level::Error, &request(Method::Get, "/nope"), 3);
    assert_eq!(resp.status, 404);
    assert!(!(200 <= resp.status && resp.status < 300));
    assert_eq!(resp.body, "");
}

#[test]
fn known_path_wrong_method_is_refused() {
    let mut m = MetricsState::new();
    let (resp, _) = process(&mut m, Level::Error, &request(Method::Post, "/"), 3);
    assert_eq!(resp.status, 405);
    let (resp, _) = process(&mut m, Level::Error, &request(Method::Delete, "/metrics"), 3);
    assert_eq!(resp.status, 405);
}

#[test]
fn route_dispatch_table() {
    assert_eq!(route_of(Method::Get, "/"), Route::Hello);
    assert_eq!(route_of(Method::Get, "/metrics"), Route::Metrics);
    assert_eq!(route_of(Method::Get, "/metrics?verbose=1"), Route::Metrics);
    assert_eq!(route_of(Method::Head, "/"), Route::MethodNotAllowed);
    assert_eq!(route_of(Method::Get, "/hello"), Route::NotFound);
    assert_eq!(route_of(Method::Get, ""), Route::NotFound);
}

#[test]
fn strip_query_cuts_at_first_question_mark() {
    assert_eq!(hello_metrics::http::strip_query("/a?b=c"), "/a");
    assert_eq!(hello_metrics::http::strip_query("/a?b=c?d"), "/a");
    assert_eq!(hello_metrics::http::strip_query("/metrics"), "/metrics");
    assert_eq!(hello_metrics::http::strip_query("?x"), "");
}
