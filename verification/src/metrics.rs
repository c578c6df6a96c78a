//! The metrics collector: process-wide request counters and latency totals,
//! keyed by route label and status code, with a plain-text exposition
//! snapshot.
//!
//! The collector itself serializes concurrent increments; the model here is
//! that sequence of increments: every recorded request bumps exactly one
//! key's counter by exactly one, so no update is ever lost.

use vstd::prelude::*;
use vstd::string::StringExecFns;
use crate::text::{contains_seq, dec_spec, lemma_contains_concat_left, lemma_contains_concat_right, str_eq, u64_to_string};

verus! {

/// One accumulation key: a route label and a status code, with the number
/// of requests seen and their total latency.
pub struct MetricEntry {
    pub path: String,
    pub status: u16,
    pub count: u64,
    pub latency_sum_micros: u64,
}

/// Whether `e` accumulates requests for the key `(path, status)`.
pub open spec fn entry_matches(e: MetricEntry, path: Seq<char>, status: u16) -> bool {
    e.path@ == path && e.status == status
}

/// The counter standing for `(path, status)`: the first matching entry's
/// count, or zero when the key has never been recorded.
pub open spec fn count_of(entries: Seq<MetricEntry>, path: Seq<char>, status: u16) -> int
    decreases entries.len(),
{
    if entries.len() == 0 {
        0
    } else if entry_matches(entries[0], path, status) {
        entries[0].count as int
    } else {
        count_of(entries.drop_first(), path, status)
    }
}

/// `e` after one more request of latency `lat`: the counter and the latency
/// total both grow, each saturating at its limit.
pub open spec fn bump_entry(e: MetricEntry, lat: u64) -> MetricEntry {
    MetricEntry {
        path: e.path,
        status: e.status,
        count: if e.count == u64::MAX {
            e.count
        } else {
            (e.count + 1) as u64
        },
        latency_sum_micros: if e.latency_sum_micros + lat > u64::MAX {
            u64::MAX
        } else {
            (e.latency_sum_micros + lat) as u64
        },
    }
}

/// The entry a first request for a key creates.
pub open spec fn fresh_entry(label: String, status: u16, lat: u64) -> MetricEntry {
    MetricEntry { path: label, status: status, count: 1, latency_sum_micros: lat }
}

/// The entries after one request is recorded: the first entry for the key
/// is bumped, or a fresh entry is appended when the key is new.
pub open spec fn record_spec(
    entries: Seq<MetricEntry>,
    label: String,
    status: u16,
    lat: u64,
) -> Seq<MetricEntry>
    decreases entries.len(),
{
    if entries.len() == 0 {
        seq![fresh_entry(label, status, lat)]
    } else if entry_matches(entries[0], label@, status) {
        seq![bump_entry(entries[0], lat)] + entries.drop_first()
    } else {
        seq![entries[0]] + record_spec(entries.drop_first(), label, status, lat)
    }
}

proof fn lemma_record_spec_found(
    entries: Seq<MetricEntry>,
    label: String,
    status: u16,
    lat: u64,
    i: int,
)
    requires
        0 <= i < entries.len(),
        entry_matches(entries[i], label@, status),
        forall|j: int| 0 <= j < i ==> !entry_matches(entries[j], label@, status),
    ensures
        record_spec(entries, label, status, lat) == entries.update(
            i,
            bump_entry(entries[i], lat),
        ),
    decreases entries.len(),
{
    if i == 0 {
        assert(seq![bump_entry(entries[0], lat)] + entries.drop_first() =~= entries.update(
            0,
            bump_entry(entries[0], lat),
        ));
    } else {
        let rest = entries.drop_first();
        assert forall|j: int| 0 <= j < i - 1 implies !entry_matches(
            rest[j],
            label@,
            status,
        ) by {
            assert(rest[j] == entries[j + 1]);
        }
        assert(rest[i - 1] == entries[i]);
        lemma_record_spec_found(rest, label, status, lat, i - 1);
        assert(seq![entries[0]] + rest.update(i - 1, bump_entry(entries[i], lat))
            =~= entries.update(i, bump_entry(entries[i], lat)));
    }
}

proof fn lemma_record_spec_fresh(entries: Seq<MetricEntry>, label: String, status: u16, lat: u64)
    requires
        forall|j: int| 0 <= j < entries.len() ==> !entry_matches(entries[j], label@, status),
    ensures
        record_spec(entries, label, status, lat) == entries.push(fresh_entry(label, status, lat)),
    decreases entries.len(),
{
    if entries.len() == 0 {
        assert(seq![fresh_entry(label, status, lat)] =~= entries.push(
            fresh_entry(label, status, lat),
        ));
    } else {
        let rest = entries.drop_first();
        assert forall|j: int| 0 <= j < rest.len() implies !entry_matches(
            rest[j],
            label@,
            status,
        ) by {
            assert(rest[j] == entries[j + 1]);
        }
        lemma_record_spec_fresh(rest, label, status, lat);
        assert(seq![entries[0]] + rest.push(fresh_entry(label, status, lat)) =~= entries.push(
            fresh_entry(label, status, lat),
        ));
    }
}

/// What one recorded request does to every counter: the recorded key grows
/// by exactly one (until its counter saturates), every other key stands
/// untouched.
pub proof fn lemma_count_of_record(
    entries: Seq<MetricEntry>,
    label: String,
    status: u16,
    lat: u64,
    p: Seq<char>,
    st: u16,
)
    ensures
        p == label@ && st == status ==> count_of(record_spec(entries, label, status, lat), p, st)
            == if count_of(entries, p, st) == u64::MAX {
            count_of(entries, p, st)
        } else {
            count_of(entries, p, st) + 1
        },
        !(p == label@ && st == status) ==> count_of(record_spec(entries, label, status, lat), p, st)
            == count_of(entries, p, st),
    decreases entries.len(),
{
    let result = record_spec(entries, label, status, lat);
    if entries.len() == 0 {
        assert(result == seq![fresh_entry(label, status, lat)]);
        assert(result[0] == fresh_entry(label, status, lat));
        assert(result[0].path@ == label@ && result[0].status == status);
        assert(result.drop_first() =~= Seq::<MetricEntry>::empty());
        assert(count_of(result.drop_first(), p, st) == 0);
        assert(!(p == label@ && st == status) ==> count_of(result, p, st) == count_of(
            entries,
            p,
            st,
        ));
    } else if entry_matches(entries[0], label@, status) {
        assert(result == seq![bump_entry(entries[0], lat)] + entries.drop_first());
        assert(result[0] == bump_entry(entries[0], lat));
        assert(result.drop_first() =~= entries.drop_first());
    } else {
        assert(result == seq![entries[0]] + record_spec(
            entries.drop_first(),
            label,
            status,
            lat,
        ));
        assert(result[0] == entries[0]);
        assert(result.drop_first() =~= record_spec(entries.drop_first(), label, status, lat));
        lemma_count_of_record(entries.drop_first(), label, status, lat, p, st);
    }
}

/// A counter is positive only because some entry stands for its key and
/// holds that very counter.
pub proof fn lemma_positive_count_has_entry(entries: Seq<MetricEntry>, p: Seq<char>, st: u16)
    requires
        count_of(entries, p, st) > 0,
    ensures
        exists|k: int|
            0 <= k < entries.len() && entry_matches(#[trigger] entries[k], p, st)
                && entries[k].count as int == count_of(entries, p, st),
    decreases entries.len(),
{
    if entry_matches(entries[0], p, st) {
        assert(entry_matches(entries[0], p, st));
    } else {
        lemma_positive_count_has_entry(entries.drop_first(), p, st);
        let k = choose|k: int|
            0 <= k < entries.drop_first().len() && entry_matches(
                #[trigger] entries.drop_first()[k],
                p,
                st,
            ) && entries.drop_first()[k].count as int == count_of(entries.drop_first(), p, st);
        assert(entries[k + 1] == entries.drop_first()[k]);
    }
}

/// The exposition lines for one entry: the request counter, then the
/// accumulated latency, each labeled with the route and the status.
pub open spec fn line_of(e: MetricEntry) -> Seq<char> {
    "http_requests_total{path=\""@ + e.path@ + "\",status=\""@ + dec_spec(e.status as int)
        + "\"} "@ + dec_spec(e.count as int) + "\n"@ + "http_request_duration_micros_sum{path=\""@
        + e.path@ + "\",status=\""@ + dec_spec(e.status as int) + "\"} "@ + dec_spec(
        e.latency_sum_micros as int,
    ) + "\n"@
}

fn entry_line(e: &MetricEntry) -> (r: String)
    ensures
        r@ == line_of(*e),
{
    let mut out = String::new();
    let status_text = u64_to_string(e.status as u64);
    out.append("http_requests_total{path=\"");
    out.append(e.path.as_str());
    out.append("\",status=\"");
    out.append(status_text.as_str());
    out.append("\"} ");
    let count_text = u64_to_string(e.count);
    out.append(count_text.as_str());
    out.append("\n");
    out.append("http_request_duration_micros_sum{path=\"");
    out.append(e.path.as_str());
    out.append("\",status=\"");
    out.append(status_text.as_str());
    out.append("\"} ");
    let sum_text = u64_to_string(e.latency_sum_micros);
    out.append(sum_text.as_str());
    out.append("\n");
    proof {
        assert(out@ =~= line_of(*e));
    }
    out
}

/// The whole snapshot: every entry's lines, in insertion order.
pub open spec fn render_spec(entries: Seq<MetricEntry>) -> Seq<char>
    decreases entries.len(),
{
    if entries.len() == 0 {
        Seq::empty()
    } else {
        render_spec(entries.drop_last()) + line_of(entries.last())
    }
}

/// The snapshot carries the lines of every entry in it.
pub proof fn lemma_render_contains_line(entries: Seq<MetricEntry>, k: int)
    requires
        0 <= k < entries.len(),
    ensures
        contains_seq(render_spec(entries), line_of(entries[k])),
    decreases entries.len(),
{
    if k == entries.len() - 1 {
        assert(entries.last() == entries[k]);
        lemma_contains_concat_right(render_spec(entries.drop_last()), line_of(entries[k]));
    } else {
        assert(entries.drop_last()[k] == entries[k]);
        lemma_render_contains_line(entries.drop_last(), k);
        lemma_contains_concat_left(
            render_spec(entries.drop_last()),
            line_of(entries.last()),
            line_of(entries[k]),
        );
    }
}

/// Once a route has been hit, the snapshot shows a sample for it: some
/// entry stands for the key, holds the key's counter, and its lines occur
/// in the rendered text.
pub proof fn lemma_snapshot_shows_hit(entries: Seq<MetricEntry>, p: Seq<char>, st: u16)
    requires
        count_of(entries, p, st) > 0,
    ensures
        exists|k: int|
            0 <= k < entries.len() && entry_matches(#[trigger] entries[k], p, st)
                && entries[k].count as int == count_of(entries, p, st) && contains_seq(
                render_spec(entries),
                line_of(entries[k]),
            ),
{
    lemma_positive_count_has_entry(entries, p, st);
    let k = choose|k: int|
        0 <= k < entries.len() && entry_matches(#[trigger] entries[k], p, st)
            && entries[k].count as int == count_of(entries, p, st);
    lemma_render_contains_line(entries, k);
}

/// The collector state: one entry per `(route, status)` key.
pub struct MetricsState {
    pub entries: Vec<MetricEntry>,
}

/// The keying discipline: no two entries stand for the same key.
pub open spec fn wf_entries(entries: Seq<MetricEntry>) -> bool {
    forall|i: int, j: int|
        0 <= i < j < entries.len() ==> !entry_matches(
            #[trigger] entries[i],
            #[trigger] entries[j].path@,
            entries[j].status,
        )
}

impl MetricsState {
    /// A collector with nothing recorded yet.
    pub fn new() -> (r: MetricsState)
        ensures
            r.entries@ =~= Seq::<MetricEntry>::empty(),
            wf_entries(r.entries@),
    {
        MetricsState { entries: Vec::new() }
    }

    /// Records one completed request for `(label, status)` with the given
    /// latency: the key's counter grows by one and its latency total by the
    /// latency, both saturating; every other key stands untouched; a new key
    /// gets a fresh entry at the end.
    pub fn record(&mut self, label: String, status: u16, latency_micros: u64)
        ensures
            final(self).entries@ == record_spec(
                old(self).entries@,
                label,
                status,
                latency_micros,
            ),
            wf_entries(old(self).entries@) ==> wf_entries(final(self).entries@),
    {
        proof {
            if wf_entries(self.entries@) {
                lemma_record_preserves_wf(self.entries@, label, status, latency_micros);
            }
        }
        let n = self.entries.len();
        let mut i: usize = 0;
        while i < n
            invariant
                i <= n,
                n == self.entries@.len(),
                self.entries@ == old(self).entries@,
                forall|j: int| 0 <= j < i ==> !entry_matches(self.entries@[j], label@, status),
            decreases n - i,
        {
            let e = &self.entries[i];
            let here = e.status == status && str_eq(e.path.as_str(), label.as_str());
            if here {
                let mut e = self.entries.remove(i);
                if e.count < u64::MAX {
                    e.count = e.count + 1;
                }
                if latency_micros > u64::MAX - e.latency_sum_micros {
                    e.latency_sum_micros = u64::MAX;
                } else {
                    e.latency_sum_micros = e.latency_sum_micros + latency_micros;
                }
                proof {
                    assert(e == bump_entry(old(self).entries@[i as int], latency_micros));
                }
                self.entries.insert(i, e);
                proof {
                    lemma_record_spec_found(
                        old(self).entries@,
                        label,
                        status,
                        latency_micros,
                        i as int,
                    );
                    assert(old(self).entries@.remove(i as int).insert(i as int, e)
                        =~= old(self).entries@.update(i as int, e));
                }
                return ;
            }
            i += 1;
        }
        self.entries.push(
            MetricEntry { path: label, status: status, count: 1, latency_sum_micros: latency_micros },
        );
        proof {
            lemma_record_spec_fresh(old(self).entries@, label, status, latency_micros);
        }
    }

    /// Reads the counter standing for `(label, status)`.
    pub fn counter_value(&self, label: &str, status: u16) -> (r: u64)
        ensures
            r as int == count_of(self.entries@, label@, status),
    {
        let n = self.entries.len();
        let mut i: usize = 0;
        proof {
            assert(self.entries@.skip(0) =~= self.entries@);
        }
        while i < n
            invariant
                i <= n,
                n == self.entries@.len(),
                count_of(self.entries@, label@, status) == count_of(
                    self.entries@.skip(i as int),
                    label@,
                    status,
                ),
            decreases n - i,
        {
            let e = &self.entries[i];
            let here = e.status == status && str_eq(e.path.as_str(), label);
            proof {
                assert(self.entries@.skip(i as int)[0] == self.entries@[i as int]);
                assert(self.entries@.skip(i as int).drop_first() =~= self.entries@.skip(
                    i as int + 1,
                ));
            }
            if here {
                return e.count;
            }
            i += 1;
        }
        proof {
            assert(self.entries@.skip(n as int) =~= Seq::<MetricEntry>::empty());
        }
        0
    }

    /// Renders the exposition snapshot of everything recorded so far.
    pub fn render(&self) -> (r: String)
        ensures
            r@ == render_spec(self.entries@),
    {
        let n = self.entries.len();
        let mut out = String::new();
        let mut i: usize = 0;
        while i < n
            invariant
                i <= n,
                n == self.entries@.len(),
                out@ == render_spec(self.entries@.take(i as int)),
            decreases n - i,
        {
            let line = entry_line(&self.entries[i]);
            out.append(line.as_str());
            proof {
                assert(self.entries@.take(i as int + 1).drop_last() =~= self.entries@.take(
                    i as int,
                ));
                assert(self.entries@.take(i as int + 1).last() == self.entries@[i as int]);
            }
            i += 1;
        }
        proof {
            assert(self.entries@.take(n as int) =~= self.entries@);
        }
        out
    }
}

/// The entries after a run of requests, all for one route label and all
/// answered with status 200, with the given latencies, recorded one by one
/// onto an empty collector.
pub open spec fn after_hits(lats: Seq<u64>, label: String) -> Seq<MetricEntry>
    decreases lats.len(),
{
    if lats.len() == 0 {
        Seq::empty()
    } else {
        record_spec(after_hits(lats.drop_last(), label), label, 200, lats.last())
    }
}

/// No lost updates: after `N` recorded requests to one route, its counter
/// equals exactly `N`. (The collector serializes concurrent increments; the
/// recorded order is the sequence modeled here.)
pub proof fn lemma_counter_counts_every_hit(lats: Seq<u64>, label: String)
    requires
        lats.len() <= u64::MAX,
    ensures
        count_of(after_hits(lats, label), label@, 200) == lats.len(),
    decreases lats.len(),
{
    if lats.len() > 0 {
        lemma_counter_counts_every_hit(lats.drop_last(), label);
        lemma_count_of_record(
            after_hits(lats.drop_last(), label),
            label,
            200,
            lats.last(),
            label@,
            200,
        );
    }
}

/// A counter is never negative.
pub proof fn lemma_count_of_nonneg(entries: Seq<MetricEntry>, p: Seq<char>, st: u16)
    ensures
        count_of(entries, p, st) >= 0,
    decreases entries.len(),
{
    if entries.len() > 0 && !entry_matches(entries[0], p, st) {
        lemma_count_of_nonneg(entries.drop_first(), p, st);
    }
}

/// Once a route has been hit and recorded, the snapshot rendered afterwards
/// contains a sample line for it, whatever was recorded before.
pub proof fn lemma_snapshot_after_hit(entries: Seq<MetricEntry>, label: String, st: u16, lat: u64)
    ensures
        exists|k: int|
            0 <= k < record_spec(entries, label, st, lat).len() && entry_matches(
                #[trigger] record_spec(entries, label, st, lat)[k],
                label@,
                st,
            ) && contains_seq(
                render_spec(record_spec(entries, label, st, lat)),
                line_of(record_spec(entries, label, st, lat)[k]),
            ),
{
    let after = record_spec(entries, label, st, lat);
    lemma_count_of_nonneg(entries, label@, st);
    lemma_count_of_record(entries, label, st, lat, label@, st);
    assert(count_of(after, label@, st) > 0);
    lemma_snapshot_shows_hit(after, label@, st);
}

/// Recording keeps the keying discipline: distinct entries stand for
/// distinct `(route, status)` keys.
pub proof fn lemma_record_preserves_wf(
    entries: Seq<MetricEntry>,
    label: String,
    status: u16,
    lat: u64,
)
    requires
        wf_entries(entries),
    ensures
        wf_entries(record_spec(entries, label, status, lat)),
{
    let result = record_spec(entries, label, status, lat);
    if exists|k: int| 0 <= k < entries.len() && entry_matches(#[trigger] entries[k], label@, status) {
        let k = lemma_first_match(entries, label@, status);
        lemma_record_spec_found(entries, label, status, lat, k);
        assert forall|i: int, j: int| 0 <= i < j < result.len() implies !entry_matches(
            #[trigger] result[i],
            #[trigger] result[j].path@,
            result[j].status,
        ) by {
            assert(result[i].path@ == entries[i].path@ && result[i].status == entries[i].status);
            assert(result[j].path@ == entries[j].path@ && result[j].status == entries[j].status);
            assert(!entry_matches(entries[i], entries[j].path@, entries[j].status));
        }
    } else {
        lemma_record_spec_fresh(entries, label, status, lat);
        assert forall|i: int, j: int| 0 <= i < j < result.len() implies !entry_matches(
            #[trigger] result[i],
            #[trigger] result[j].path@,
            result[j].status,
        ) by {
            if j < entries.len() {
                assert(result[i] == entries[i] && result[j] == entries[j]);
                assert(!entry_matches(entries[i], entries[j].path@, entries[j].status));
            } else {
                assert(result[i] == entries[i]);
                assert(result[j] == fresh_entry(label, status, lat));
                assert(!entry_matches(entries[i], label@, status));
            }
        }
    }
}

proof fn lemma_first_match(entries: Seq<MetricEntry>, p: Seq<char>, st: u16) -> (k: int)
    requires
        exists|k: int| 0 <= k < entries.len() && entry_matches(#[trigger] entries[k], p, st),
    ensures
        0 <= k < entries.len(),
        entry_matches(entries[k], p, st),
        forall|j: int| 0 <= j < k ==> !entry_matches(entries[j], p, st),
    decreases entries.len(),
{
    if entry_matches(entries[0], p, st) {
        0
    } else {
        let rest = entries.drop_first();
        let w = choose|k: int| 0 <= k < entries.len() && entry_matches(#[trigger] entries[k], p, st);
        assert(rest[w - 1] == entries[w]);
        let k0 = lemma_first_match(rest, p, st);
        assert(entries[k0 + 1] == rest[k0]);
        assert forall|j: int| 0 <= j < k0 + 1 implies !entry_matches(entries[j], p, st) by {
            if j > 0 {
                assert(rest[j - 1] == entries[j]);
            }
        }
        k0 + 1
    }
}

} // verus!
