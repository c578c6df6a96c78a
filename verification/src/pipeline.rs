//! The request pipeline: dispatch a request to its handler, then let the
//! two observing layers do their work — the metrics layer records the
//! request under its route and status, and the tracing layer emits the
//! latency log line when the active filter admits informational events.
//! Neither layer ever alters the response.

use vstd::prelude::*;
use vstd::string::StringExecFns;
use crate::http::{route_path, Request, Response};
use crate::logging::{
    latency_message, latency_message_spec, should_log, should_log_spec, Level, LogRecord,
};
use crate::metrics::{
    count_of, lemma_count_of_record, record_spec, render_spec, MetricEntry, MetricsState,
};
use crate::routes::{hello_world, route_of, route_of_spec, status_of, Route};

verus! {

/// The body each route answers with: the greeting, the metrics snapshot of
/// the state at dispatch time, or nothing for the framework rejections.
pub open spec fn body_spec(route: Route, entries: Seq<MetricEntry>) -> Seq<char> {
    match route {
        Route::Hello => "Hello World!"@,
        Route::Metrics => render_spec(entries),
        Route::MethodNotAllowed => Seq::empty(),
        Route::NotFound => Seq::empty(),
    }
}

/// The content type each route answers with; the rejections carry none.
pub open spec fn content_type_spec(route: Route) -> Seq<char> {
    match route {
        Route::Hello => "text/plain; charset=utf-8"@,
        Route::Metrics => "text/plain; charset=utf-8"@,
        Route::MethodNotAllowed => Seq::empty(),
        Route::NotFound => Seq::empty(),
    }
}

/// Dispatches a request to its handler and builds the response. The
/// metrics state is only read here — for the snapshot body of the
/// metrics route — never changed.
pub fn dispatch(req: &Request, metrics: &MetricsState) -> (r: Response)
    ensures
        r.status == status_of(route_of_spec(req.method, req.path@)),
        r.body@ == body_spec(route_of_spec(req.method, req.path@), metrics.entries@),
        r.content_type@ == content_type_spec(route_of_spec(req.method, req.path@)),
{
    let route = route_of(req.method, req.path.as_str());
    match route {
        Route::Hello => Response {
            status: 200,
            content_type: String::from_str("text/plain; charset=utf-8"),
            body: String::from_str(hello_world()),
        },
        Route::Metrics => Response {
            status: 200,
            content_type: String::from_str("text/plain; charset=utf-8"),
            body: metrics.render(),
        },
        Route::MethodNotAllowed => Response {
            status: 405,
            content_type: String::new(),
            body: String::new(),
        },
        Route::NotFound => Response { status: 404, content_type: String::new(), body: String::new() },
    }
}

/// Runs one request through the whole pipeline: dispatch and handler first,
/// then the two observers. The response is exactly what the handler built;
/// the request is recorded under its route path and the response's status,
/// with the measured latency; the latency log line is produced exactly when
/// the filter admits informational events.
pub fn process(metrics: &mut MetricsState, filter: Level, req: &Request, latency_micros: u64) -> (r:
    (Response, Option<LogRecord>))
    ensures
        r.0.status == status_of(route_of_spec(req.method, req.path@)),
        r.0.body@ == body_spec(route_of_spec(req.method, req.path@), old(metrics).entries@),
        r.0.content_type@ == content_type_spec(route_of_spec(req.method, req.path@)),
        exists|label: String|
            label@ == route_path(req.path@) && final(metrics).entries@ == record_spec(
                old(metrics).entries@,
                label,
                status_of(route_of_spec(req.method, req.path@)),
                latency_micros,
            ),
        count_of(
            final(metrics).entries@,
            route_path(req.path@),
            status_of(route_of_spec(req.method, req.path@)),
        ) == {
            let before = count_of(
                old(metrics).entries@,
                route_path(req.path@),
                status_of(route_of_spec(req.method, req.path@)),
            );
            if before == u64::MAX {
                before
            } else {
                before + 1
            }
        },
        forall|p: Seq<char>, st: u16|
            !(p == route_path(req.path@) && st == status_of(route_of_spec(req.method, req.path@)))
                ==> #[trigger] count_of(final(metrics).entries@, p, st) == count_of(
                old(metrics).entries@,
                p,
                st,
            ),
        crate::metrics::wf_entries(old(metrics).entries@) ==> crate::metrics::wf_entries(
            final(metrics).entries@,
        ),
        r.1 is Some <==> should_log_spec(filter, Level::Info),
        r.1 is Some ==> r.1->0.level == Level::Info && r.1->0.message@ == latency_message_spec(
            latency_micros as int,
        ),
{
    let resp = dispatch(req, metrics);
    let label = crate::http::strip_query(req.path.as_str()).to_owned();
    let ghost glabel = label;
    let status = resp.status;
    metrics.record(label, status, latency_micros);
    proof {
        assert(glabel@ == route_path(req.path@) && final(metrics).entries@ == record_spec(
            old(metrics).entries@,
            glabel,
            status_of(route_of_spec(req.method, req.path@)),
            latency_micros,
        ));
        lemma_count_of_record(
            old(metrics).entries@,
            glabel,
            status_of(route_of_spec(req.method, req.path@)),
            latency_micros,
            route_path(req.path@),
            status_of(route_of_spec(req.method, req.path@)),
        );
        assert forall|p: Seq<char>, st: u16|
            !(p == route_path(req.path@) && st == status_of(
                route_of_spec(req.method, req.path@),
            )) implies #[trigger] count_of(final(metrics).entries@, p, st) == count_of(
            old(metrics).entries@,
            p,
            st,
        ) by {
            lemma_count_of_record(
                old(metrics).entries@,
                glabel,
                status_of(route_of_spec(req.method, req.path@)),
                latency_micros,
                p,
                st,
            );
        }
    }
    let log = if should_log(filter, Level::Info) {
        Some(LogRecord { level: Level::Info, message: latency_message(latency_micros) })
    } else {
        None
    };
    (resp, log)
}

/// The greeting route always succeeds: a `GET` whose target's path part is
/// `/` — whatever query string it carries, whatever headers or body the
/// request holds, and whatever has been recorded before — is answered with
/// status 200 and the body `Hello World!`, exactly.
pub proof fn lemma_hello_always_ok(req: Request, entries: Seq<MetricEntry>)
    requires
        req.method == crate::http::Method::Get,
        route_path(req.path@) == "/"@,
    ensures
        route_of_spec(req.method, req.path@) == Route::Hello,
        status_of(route_of_spec(req.method, req.path@)) == 200,
        body_spec(route_of_spec(req.method, req.path@), entries) == "Hello World!"@,
{
}

/// A request for an undefined path is turned away, not served and not
/// crashed on: the response status is 404, which is no success status.
pub proof fn lemma_unknown_path_not_found(req: Request)
    requires
        route_path(req.path@) != "/"@,
        route_path(req.path@) != "/metrics"@,
    ensures
        route_of_spec(req.method, req.path@) == Route::NotFound,
        status_of(route_of_spec(req.method, req.path@)) == 404,
        !(200 <= status_of(route_of_spec(req.method, req.path@)) < 300),
{
}

} // verus!

