use hello_metrics::http::{Method, Request};
use hello_metrics::logging::Level;
use hello_metrics::metrics::{MetricEntry, MetricsState};
use hello_metrics::pipeline::process;

fn request(method: Method, path: &str) -> Request {
    Request { method, path: String::from(path), headers: Vec::new(), body: Vec::new() }
}

#[test]
fn snapshot_shows_a_sample_after_one_hit() {
    let mut m = MetricsState::new();
    let (resp, _) = process(&mut m, Level::Error, &request(Method::Get, "/"), 7);
    assert_eq!(resp.status, 200);
    let (resp, _) = process(&mut m, Level::Error, &request(Method::Get, "/metrics"), 2);
    assert_eq!(resp.status, 200);
    assert!(resp.body.contains("http_requests_total{path=\"/\",status=\"200\"} 1"));
}

#[test]
fn counter_counts_every_hit() {
    let mut m = MetricsState::new();
    let n: u64 = 100;
    for i in 0..n {
        let (resp, _) = process(&mut m, Level::Error, &request(Method::Get, "/"), i);
        assert_eq!(resp.status, 200);
    }
    assert_eq!(m.counter_value("/", 200), n);
    assert_eq!(m.counter_value("/", 404), 0);
    assert_eq!(m.counter_value("/nope", 200), 0);
}

#[test]
fn distinct_keys_are_kept_apart() {
    let mut m = MetricsState::new();
    process(&mut m, Level::Error, &request(Method::Get, "/"), 1);
    process(&mut m, Level::Error, &request(Method::Get, "/"), 1);
    process(&mut m, Level::Error, &request(Method::Get, "/absent"), 1);
    process(&mut m, Level::Error, &request(Method::Post, "/"), 1);
    assert_eq!(m.counter_value("/", 200), 2);
    assert_eq!(m.counter_value("/absent", 404), 1);
    assert_eq!(m.counter_value("/", 405), 1);
}

#[test]
fn render_exact_text() {
    let mut m = MetricsState::new();
    m.record(String::from("/"), 200, 30);
    m.record(String::from("/"), 200, 12);
    let shown = m.render();
    assert_eq!(
        shown,
        "http_requests_total{path=\"/\",status=\"200\"} 2\n\
         http_request_duration_micros_sum{path=\"/\",status=\"200\"} 42\n"
    );
}

#[test]
fn empty_collector_renders_nothing() {
    let m = MetricsState::new();
    assert_eq!(m.render(), "");
}

#[test]
fn counter_saturates_at_its_limit() {
    let mut m = MetricsState {
        entries: vec![MetricEntry {
            path: String::from("/"),
            status: 200,
            count: u64::MAX,
            latency_sum_micros: 0,
        }],
    };
    m.record(String::from("/"), 200, 9);
    assert_eq!(m.counter_value("/", 200), u64::MAX);
    assert_eq!(m.entries[0].latency_sum_micros, 9);
}

#[test]
fn latency_total_saturates_at_its_limit() {
    let mut m = MetricsState {
        entries: vec![MetricEntry {
            path: String::from("/"),
            status: 200,
            count: 1,
            latency_sum_micros: u64::MAX - 3,
        }],
    };
    m.record(String::from("/"), 200, 10);
    assert_eq!(m.entries[0].latency_sum_micros, u64::MAX);
    assert_eq!(m.counter_value("/", 200), 2);
}

#[test]
fn metrics_snapshot_excludes_the_scrape_itself() {
    let mut m = MetricsState::new();
    let (first, _) = process(&mut m, Level::Error, &request(Method::Get, "/metrics"), 4);
    assert_eq!(first.body, "");
    let (second, _) = process(&mut m, Level::Error, &request(Method::Get, "/metrics"), 4);
    assert!(second.body.contains("http_requests_total{path=\"/metrics\",status=\"200\"} 1"));
}
