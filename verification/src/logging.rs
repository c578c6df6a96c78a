//! Log severities, filter-directive parsing, the fallback chain that picks
//! the active filter at startup, and the naming of the daily log file.
//!
//! The filter is resolved from a primary directive (an environment variable,
//! read by the caller), falling back to a secondary directive, and finally to
//! error-level-only logging. The actual file writing is the caller's business;
//! this module decides what the file is called and which events pass the
//! filter.

use vstd::prelude::*;
use vstd::string::StringExecFns;
use crate::text::{ci_seq_eq, dec_spec, digit_char, str_ci_eq, u64_to_string};

verus! {

/// A log severity, ordered from `Off` (nothing passes) up to `Trace`.
#[derive(Clone, Copy, PartialEq, Eq, Debug, Structural)]
pub enum Level {
    Off,
    Error,
    Warn,
    Info,
    Debug,
    Trace,
}

/// Numeric rank of a severity: `Off` is 0, `Error` 1, up to `Trace` at 5.
pub open spec fn rank(l: Level) -> int {
    match l {
        Level::Off => 0,
        Level::Error => 1,
        Level::Warn => 2,
        Level::Info => 3,
        Level::Debug => 4,
        Level::Trace => 5,
    }
}

fn level_rank(l: Level) -> (r: u8)
    ensures
        r == rank(l),
{
    match l {
        Level::Off => 0,
        Level::Error => 1,
        Level::Warn => 2,
        Level::Info => 3,
        Level::Debug => 4,
        Level::Trace => 5,
    }
}

/// Whether an event of severity `event` passes a filter set to `filter`.
pub open spec fn should_log_spec(filter: Level, event: Level) -> bool {
    1 <= rank(event) <= rank(filter)
}

/// Decides whether an event of severity `event` is emitted under `filter`.
pub fn should_log(filter: Level, event: Level) -> (r: bool)
    ensures
        r == should_log_spec(filter, event),
{
    let fr = level_rank(filter);
    let er = level_rank(event);
    1 <= er && er <= fr
}

/// The severity denoted by a filter directive: a level name, matched
/// regardless of ASCII case, or its numeric rank.
pub open spec fn parse_level_spec(s: Seq<char>) -> Option<Level> {
    if ci_seq_eq(s, "error"@) || ci_seq_eq(s, "1"@) {
        Some(Level::Error)
    } else if ci_seq_eq(s, "warn"@) || ci_seq_eq(s, "2"@) {
        Some(Level::Warn)
    } else if ci_seq_eq(s, "info"@) || ci_seq_eq(s, "3"@) {
        Some(Level::Info)
    } else if ci_seq_eq(s, "debug"@) || ci_seq_eq(s, "4"@) {
        Some(Level::Debug)
    } else if ci_seq_eq(s, "trace"@) || ci_seq_eq(s, "5"@) {
        Some(Level::Trace)
    } else if ci_seq_eq(s, "off"@) || ci_seq_eq(s, "0"@) {
        Some(Level::Off)
    } else {
        None
    }
}

/// Parses a filter directive; `None` on anything malformed.
pub fn parse_level(s: &str) -> (r: Option<Level>)
    ensures
        r == parse_level_spec(s@),
{
    if str_ci_eq(s, "error") || str_ci_eq(s, "1") {
        Some(Level::Error)
    } else if str_ci_eq(s, "warn") || str_ci_eq(s, "2") {
        Some(Level::Warn)
    } else if str_ci_eq(s, "info") || str_ci_eq(s, "3") {
        Some(Level::Info)
    } else if str_ci_eq(s, "debug") || str_ci_eq(s, "4") {
        Some(Level::Debug)
    } else if str_ci_eq(s, "trace") || str_ci_eq(s, "5") {
        Some(Level::Trace)
    } else if str_ci_eq(s, "off") || str_ci_eq(s, "0") {
        Some(Level::Off)
    } else {
        None
    }
}

/// What the secondary directive resolves to: its parsed level, or
/// error-level-only logging when it is absent or malformed.
pub open spec fn resolve_secondary_spec(secondary: Option<Seq<char>>) -> Level {
    match secondary {
        Some(s) => match parse_level_spec(s) {
            Some(l) => l,
            None => Level::Error,
        },
        None => Level::Error,
    }
}

/// The filter the process runs with: the primary directive if it parses,
/// else the secondary directive if it parses, else `Error`.
pub open spec fn resolve_filter_spec(
    primary: Option<Seq<char>>,
    secondary: Option<Seq<char>>,
) -> Level {
    match primary {
        Some(p) => match parse_level_spec(p) {
            Some(l) => l,
            None => resolve_secondary_spec(secondary),
        },
        None => resolve_secondary_spec(secondary),
    }
}

/// Resolves the active log filter from the two directives, first success
/// winning, with error-level-only logging as the final fallback.
pub fn resolve_filter(primary: Option<&str>, secondary: Option<&str>) -> (r: Level)
    ensures
        r == resolve_filter_spec(primary.deep_view(), secondary.deep_view()),
{
    let fallback = match secondary {
        Some(s) => match parse_level(s) {
            Some(l) => l,
            None => Level::Error,
        },
        None => Level::Error,
    };
    match primary {
        Some(p) => match parse_level(p) {
            Some(l) => l,
            None => fallback,
        },
        None => fallback,
    }
}

/// When the primary directive is malformed and the secondary is absent or
/// malformed too, the process still gets a filter: error-level-only logging,
/// under which no informational event is emitted.
pub proof fn lemma_invalid_filter_defaults_to_error(
    primary: Seq<char>,
    secondary: Option<Seq<char>>,
)
    requires
        parse_level_spec(primary) is None,
        secondary is Some ==> parse_level_spec(secondary->0) is None,
    ensures
        resolve_filter_spec(Some(primary), secondary) == Level::Error,
        !should_log_spec(resolve_filter_spec(Some(primary), secondary), Level::Info),
{
}

/// A structured log line: a severity and a rendered message.
pub struct LogRecord {
    pub level: Level,
    pub message: String,
}

/// The message logged for a completed request that took `micros`
/// microseconds of wall-clock time.
pub open spec fn latency_message_spec(micros: int) -> Seq<char> {
    "response generated in "@ + dec_spec(micros) + "us"@
}

/// Renders the per-request latency log message.
pub fn latency_message(micros: u64) -> (r: String)
    ensures
        r@ == latency_message_spec(micros as int),
{
    let mut s = String::from_str("response generated in ");
    let d = u64_to_string(micros);
    s.append(d.as_str());
    s.append("us");
    s
}

/// The fixed relative directory the log files live in.
pub fn log_directory() -> (r: &'static str)
    ensures
        r@ == "./logs"@,
{
    "./logs"
}

/// The fixed file-name prefix of the daily log files.
pub fn log_file_prefix() -> (r: &'static str)
    ensures
        r@ == "axum_test"@,
{
    "axum_test"
}

/// The environment variable holding the primary filter directive.
pub fn primary_filter_var() -> (r: &'static str)
    ensures
        r@ == "AXUM_TEST_LOG"@,
{
    "AXUM_TEST_LOG"
}

/// The environment variable holding the fallback filter directive.
pub fn secondary_filter_var() -> (r: &'static str)
    ensures
        r@ == "RUST_LOG"@,
{
    "RUST_LOG"
}

/// Two decimal digits, zero-padded, meaningful for `0 <= n < 100`.
pub open spec fn pad2_spec(n: int) -> Seq<char> {
    if n < 10 {
        seq!['0', digit_char(n)]
    } else {
        dec_spec(n)
    }
}

fn pad2(n: u64) -> (r: String)
    requires
        n < 100,
    ensures
        r@ == pad2_spec(n as int),
{
    if n < 10 {
        let mut s = String::from_str("0");
        let d = u64_to_string(n);
        s.append(d.as_str());
        proof {
            reveal_strlit("0");
            assert(s@ =~= pad2_spec(n as int));
        }
        s
    } else {
        u64_to_string(n)
    }
}

/// The name of the log file for a given calendar day: the fixed prefix,
/// then the date, zero-padded, as `prefix.YYYY-MM-DD`.
pub open spec fn log_file_name_spec(year: int, month: int, day: int) -> Seq<char> {
    "axum_test."@ + dec_spec(year) + "-"@ + pad2_spec(month) + "-"@ + pad2_spec(day)
}

/// Renders the daily log file name for the given date.
pub fn log_file_name(year: u64, month: u64, day: u64) -> (r: String)
    requires
        1000 <= year <= 9999,
        1 <= month <= 12,
        1 <= day <= 31,
    ensures
        r@ == log_file_name_spec(year as int, month as int, day as int),
{
    let mut s = String::from_str("axum_test.");
    let y = u64_to_string(year);
    s.append(y.as_str());
    s.append("-");
    let m = pad2(month);
    s.append(m.as_str());
    s.append("-");
    let d = pad2(day);
    s.append(d.as_str());
    s
}

} // verus!
