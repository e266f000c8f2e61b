//! The metrics page: allocator statistics, cache gauges and the request
//! duration histograms in Prometheus text format.

use vstd::prelude::*;
use vstd::string::to_string_from_display_ensures;

use crate::allocator::advanced;
use crate::allocator::AllocatorStats;
use crate::allocator::Fresh;
use crate::http::text_reply;
use crate::http::Body;
use crate::http::BodyView;
use crate::http::HttpReply;
use crate::http::HttpReplyView;
use crate::metrics_http::is_page;
use crate::metrics_http::render_prometheus;
use crate::metrics_http::HistogramRegistry;
use crate::metrics_http::RouteHistView;
use crate::seconds::EXACT_MICROS;
use crate::text::decimal;
use crate::text::join;
use crate::text::push_decimal;

verus! {

/// What the response cache counts.
pub struct ResponseCacheMetrics {
    pub memory_usage_bytes: u64,
    pub total_entries: u64,
    pub cache_hits: u64,
    pub cache_misses: u64,
    pub evictions: u64,
}

/// What the cache of rendered layouts counts.
pub struct LayoutCacheMetrics {
    pub bytes: u64,
    pub entries: u64,
}

/// A metric: the line with its type and the line with its value.
pub open spec fn metric(name: Seq<char>, kind: Seq<char>, value: nat) -> Seq<char> {
    "# TYPE "@ + name + " "@ + kind + "\n"@ + name + " "@ + decimal(value) + "\n"@
}

/// A gauge that is left out where its value could not be read.
pub open spec fn optional_gauge(name: Seq<char>, value: Option<usize>) -> Seq<char> {
    match value {
        Some(value) => metric(name, "gauge"@, value as nat),
        None => Seq::empty(),
    }
}

impl AllocatorStats {
    /// The gauges of the allocator.
    pub open spec fn lines(&self) -> Seq<char> {
        optional_gauge("rari_jemalloc_allocated_bytes"@, self.allocated) + optional_gauge(
            "rari_jemalloc_active_bytes"@,
            self.active,
        ) + optional_gauge("rari_jemalloc_resident_bytes"@, self.resident) + optional_gauge(
            "rari_jemalloc_retained_bytes"@,
            self.retained,
        ) + optional_gauge("rari_jemalloc_mapped_bytes"@, self.mapped) + optional_gauge(
            "rari_jemalloc_metadata_bytes"@,
            self.metadata,
        )
    }
}

impl ResponseCacheMetrics {
    /// The metrics of the response cache.
    pub open spec fn lines(&self) -> Seq<char> {
        metric("rari_response_cache_bytes"@, "gauge"@, self.memory_usage_bytes as nat) + metric(
            "rari_response_cache_entries"@,
            "gauge"@,
            self.total_entries as nat,
        ) + metric("rari_response_cache_hits_total"@, "counter"@, self.cache_hits as nat) + metric(
            "rari_response_cache_misses_total"@,
            "counter"@,
            self.cache_misses as nat,
        ) + metric("rari_response_cache_evictions_total"@, "counter"@, self.evictions as nat)
    }
}

impl LayoutCacheMetrics {
    /// The metrics of the layout cache.
    pub open spec fn lines(&self) -> Seq<char> {
        metric("rari_layout_cache_bytes"@, "gauge"@, self.bytes as nat) + metric(
            "rari_layout_cache_entries"@,
            "gauge"@,
            self.entries as nat,
        )
    }
}

fn push_metric(out: &mut String, name: &str, kind: &str, value: u64)
    ensures
        final(out)@ == old(out)@ + metric(name@, kind@, value as nat),
{
    let mut lines = "# TYPE ".to_string();
    lines.append(name);
    lines.append(" ");
    lines.append(kind);
    lines.append("\n");
    lines.append(name);
    lines.append(" ");
    push_decimal(&mut lines, value);
    lines.append("\n");
    out.append(lines.as_str());
}

fn push_optional_gauge(out: &mut String, name: &str, value: Option<usize>)
    ensures
        final(out)@ == old(out)@ + optional_gauge(name@, value),
{
    match value {
        Some(value) => push_metric(out, name, "gauge", value as u64),
        None => {
            assert(out@ =~= old(out)@ + Seq::<char>::empty());
        },
    }
}

impl AllocatorStats {
    /// Renders the gauges of the allocator.
    pub fn render(&self, out: &mut String)
        ensures
            final(out)@ == old(out)@ + self.lines(),
    {
        let mut lines = String::new();
        push_optional_gauge(&mut lines, "rari_jemalloc_allocated_bytes", self.allocated);
        push_optional_gauge(&mut lines, "rari_jemalloc_active_bytes", self.active);
        push_optional_gauge(&mut lines, "rari_jemalloc_resident_bytes", self.resident);
        push_optional_gauge(&mut lines, "rari_jemalloc_retained_bytes", self.retained);
        push_optional_gauge(&mut lines, "rari_jemalloc_mapped_bytes", self.mapped);
        push_optional_gauge(&mut lines, "rari_jemalloc_metadata_bytes", self.metadata);
        assert(lines@ =~= self.lines());
        out.append(lines.as_str());
    }
}

impl ResponseCacheMetrics {
    /// Renders the metrics of the response cache.
    pub fn render(&self, out: &mut String)
        ensures
            final(out)@ == old(out)@ + self.lines(),
    {
        let mut lines = String::new();
        push_metric(&mut lines, "rari_response_cache_bytes", "gauge", self.memory_usage_bytes);
        push_metric(&mut lines, "rari_response_cache_entries", "gauge", self.total_entries);
        push_metric(&mut lines, "rari_response_cache_hits_total", "counter", self.cache_hits);
        push_metric(&mut lines, "rari_response_cache_misses_total", "counter", self.cache_misses);
        push_metric(&mut lines, "rari_response_cache_evictions_total", "counter", self.evictions);
        assert(lines@ =~= self.lines());
        out.append(lines.as_str());
    }
}

impl LayoutCacheMetrics {
    /// Renders the metrics of the layout cache.
    pub fn render(&self, out: &mut String)
        ensures
            final(out)@ == old(out)@ + self.lines(),
    {
        let mut lines = String::new();
        push_metric(&mut lines, "rari_layout_cache_bytes", "gauge", self.bytes);
        push_metric(&mut lines, "rari_layout_cache_entries", "gauge", self.entries);
        assert(lines@ =~= self.lines());
        out.append(lines.as_str());
    }
}

/// What is replied where the allocator would not bring its statistics up to
/// date.
pub open spec fn stale_reply(reason: Seq<char>) -> HttpReplyView {
    text_reply(500, "# jemalloc epoch advance failed: "@ + reason + "\n"@)
}

/// What to reply where the allocator would not bring its statistics up to date.
pub fn reply_stale(reason: &str) -> (res: HttpReply)
    ensures
        res@ == stale_reply(reason@),
{
    HttpReply::text(500, join(join("# jemalloc epoch advance failed: ", reason).as_str(), "\n"))
}

/// The metrics page as a reply.
pub open spec fn metrics_reply(text: Seq<char>) -> HttpReplyView {
    HttpReplyView {
        status: 200,
        headers: seq![("content-type"@, "text/plain; version=0.0.4"@)],
        body: BodyView::Text(text),
    }
}

/// What to reply, where this is what the allocator says of itself. `spell`
/// spells a sum of microseconds in seconds that is not below [`EXACT_MICROS`].
pub fn reply_page<F: Fn(u64) -> String>(
    allocator: &AllocatorStats,
    responses: &ResponseCacheMetrics,
    layouts: &LayoutCacheMetrics,
    registry: &HistogramRegistry,
    spell: F,
) -> (res: HttpReply)
    requires
        forall|micros: u64| micros >= EXACT_MICROS ==> call_requires(spell, (micros,)),
    ensures
        exists|
            page: Seq<char>,
            entries: Seq<(Seq<char>, RouteHistView)>,
            seconds: Seq<String>,
        | #[trigger]
            is_page(page, registry@, spell, entries, seconds) && res@ == metrics_reply(
                allocator.lines() + responses.lines() + layouts.lines() + page,
            ),
{
    let mut text = String::new();
    allocator.render(&mut text);
    responses.render(&mut text);
    layouts.render(&mut text);
    assert(text@ =~= allocator.lines() + responses.lines() + layouts.lines());
    render_prometheus(&mut text, registry, spell);
    let mut headers: Vec<(String, String)> = Vec::new();
    headers.push(("content-type".to_string(), "text/plain; version=0.0.4".to_string()));
    let ghost body = text@;
    let res = HttpReply { status: 200, headers, body: Body::Text(text) };
    assert(res@.headers =~= metrics_reply(body).headers);
    res
}

/// The metrics page, as the allocator stands. Its statistics are cached, so it
/// is first asked to bring them up to date; where it will not, the reply says
/// why. `spell` spells a sum of microseconds in seconds that is not below
/// [`EXACT_MICROS`].
pub fn reply_metrics<F: Fn(u64) -> String>(
    responses: &ResponseCacheMetrics,
    layouts: &LayoutCacheMetrics,
    registry: &HistogramRegistry,
    spell: F,
) -> (res: HttpReply)
    requires
        forall|micros: u64| micros >= EXACT_MICROS ==> call_requires(spell, (micros,)),
    ensures
        exists|epoch: Result<Fresh, tikv_jemalloc_ctl::Error>| #[trigger]
            advanced(epoch) && match epoch {
                Err(error) => exists|reason: String| #[trigger]
                    to_string_from_display_ensures(&error, reason) && res@ == stale_reply(
                        reason@,
                    ),
                Ok(fresh) => exists|
                    allocator: AllocatorStats,
                    page: Seq<char>,
                    entries: Seq<(Seq<char>, RouteHistView)>,
                    seconds: Seq<String>,
                |
                    allocator.as_answered() && #[trigger] allocator.taken_after(fresh)
                        && #[trigger] is_page(page, registry@, spell, entries, seconds) && res@
                        == metrics_reply(
                        allocator.lines() + responses.lines() + layouts.lines() + page,
                    ),
            },
{
    match Fresh::advance() {
        Err(error) => reply_stale(error.to_string().as_str()),
        Ok(fresh) => reply_page(
            &AllocatorStats::read(fresh),
            responses,
            layouts,
            registry,
            spell,
        ),
    }
}

/// The metrics page is replied as it is, under its content type; where the
/// statistics are stale, the reply is the reason.
pub proof fn law_page_is_the_body(text: Seq<char>, reason: Seq<char>)
    ensures
        metrics_reply(text) == (HttpReplyView {
            status: 200,
            headers: seq![("content-type"@, "text/plain; version=0.0.4"@)],
            body: BodyView::Text(text),
        }),
        stale_reply(reason) == (HttpReplyView {
            status: 500,
            headers: Seq::empty(),
            body: BodyView::Text("# jemalloc epoch advance failed: "@ + reason + "\n"@),
        }),
{
}

} // verus!
