use hello_metrics::http::{Method, Request};
use hello_metrics::logging::{
    latency_message, log_directory, log_file_name, log_file_prefix, parse_level,
    primary_filter_var, resolve_filter, secondary_filter_var, should_log, Level,
};
use hello_metrics::metrics::MetricsState;
use hello_metrics::pipeline::process;
use hello_metrics::text::u64_to_string;

fn request(method: Method, path: &str) -> Request {
    Request { method, path: String::from(path), headers: Vec::new(), body: Vec::new() }
}

#[test]
fn directive_names_parse_in_any_case() {
    assert_eq!(parse_level("error"), Some(Level::Error));
    assert_eq!(parse_level("ERROR"), Some(Level::Error));
    assert_eq!(parse_level("Warn"), Some(Level::Warn));
    assert_eq!(parse_level("info"), Some(Level::Info));
    assert_eq!(parse_level("DEBUG"), Some(Level::Debug));
    assert_eq!(parse_level("trace"), Some(Level::Trace));
    assert_eq!(parse_level("off"), Some(Level::Off));
}

#[test]
fn directive_ranks_parse() {
    assert_eq!(parse_level("0"), Some(Level::Off));
    assert_eq!(parse_level("1"), Some(Level::Error));
    assert_eq!(parse_level("2"), Some(Level::Warn));
    assert_eq!(parse_level("3"), Some(Level::Info));
    assert_eq!(parse_level("4"), Some(Level::Debug));
    assert_eq!(parse_level("5"), Some(Level::Trace));
}

#[test]
fn malformed_directives_do_not_parse() {
    assert_eq!(parse_level(""), None);
    assert_eq!(parse_level("verbose"), None);
    assert_eq!(parse_level("info,hyper=debug"), None);
    assert_eq!(parse_level("6"), None);
    assert_eq!(parse_level(" error"), None);
}

#[test]
fn fallback_chain_first_success_wins() {
    assert_eq!(resolve_filter(Some("debug"), Some("trace")), Level::Debug);
    assert_eq!(resolve_filter(Some("nonsense"), Some("trace")), Level::Trace);
    assert_eq!(resolve_filter(None, Some("warn")), Level::Warn);
    assert_eq!(resolve_filter(Some("nonsense"), Some("also nonsense")), Level::Error);
    assert_eq!(resolve_filter(Some("nonsense"), None), Level::Error);
    assert_eq!(resolve_filter(None, None), Level::Error);
}

#[test]
fn invalid_filter_still_serves_and_mutes_info() {
    let filter = resolve_filter(Some("not-a-level"), None);
    assert_eq!(filter, Level::Error);
    let mut m = MetricsState::new();
    let (resp, log) = process(&mut m, filter, &request(Method::Get, "/"), 8);
    assert_eq!(resp.status, 200);
    assert!(log.is_none());
}

#[test]
fn info_filter_logs_every_completed_request() {
    let mut m = MetricsState::new();
    for path in ["/", "/metrics", "/missing"] {
        let (_, log) = process(&mut m, Level::Info, &request(Method::Get, path), 42);
        let record = log.expect("a latency line for every completed request");
        assert_eq!(record.level, Level::Info);
        assert_eq!(record.message, "response generated in 42us");
    }
}

#[test]
fn severity_filtering_is_by_rank() {
    assert!(should_log(Level::Info, Level::Error));
    assert!(should_log(Level::Info, Level::Info));
    assert!(!should_log(Level::Info, Level::Debug));
    assert!(!should_log(Level::Error, Level::Info));
    assert!(!should_log(Level::Off, Level::Error));
    assert!(should_log(Level::Trace, Level::Trace));
}

#[test]
fn latency_message_exact() {
    assert_eq!(latency_message(0), "response generated in 0us");
    assert_eq!(latency_message(1234), "response generated in 1234us");
}

#[test]
fn decimal_rendering_exact() {
    assert_eq!(u64_to_string(0), "0");
    assert_eq!(u64_to_string(7), "7");
    assert_eq!(u64_to_string(9007), "9007");
    assert_eq!(u64_to_string(u64::MAX), "18446744073709551615");
}

#[test]
fn daily_file_name_is_prefix_and_date() {
    assert_eq!(log_file_name(2024, 3, 7), "axum_test.2024-03-07");
    assert_eq!(log_file_name(1999, 12, 31), "axum_test.1999-12-31");
    assert_eq!(log_directory(), "./logs");
    assert_eq!(log_file_prefix(), "axum_test");
}

#[test]
fn filter_variable_names() {
    assert_eq!(primary_filter_var(), "AXUM_TEST_LOG");
    assert_eq!(secondary_filter_var(), "RUST_LOG");
}
