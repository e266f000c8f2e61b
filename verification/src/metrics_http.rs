//! Per-route request duration histograms. A histogram is labelled by the
//! matched route pattern (such as "/news/[slug]"), never by the raw URL, so
//! that the number of labels stays bounded by the route table.

use dashmap::DashMap;
use std::time::Instant;
use vstd::prelude::*;

use crate::ask::ask;
use crate::labels::escaped;
use crate::labels::push_escaped;
use crate::listing::lists;
use crate::seconds::seconds_text;
use crate::seconds::write_seconds;
use crate::seconds::EXACT_MICROS;
use crate::text::decimal;
use crate::text::push_decimal;

verus! {

/// Upper bound of each bucket but the last, in nanoseconds. The last bucket
/// takes what exceeds them all.
pub const BOUNDS_NANOS: [u64; 10] = [
    5_000_000,
    25_000_000,
    100_000_000,
    250_000_000,
    500_000_000,
    1_000_000_000,
    2_500_000_000,
    5_000_000_000,
    10_000_000_000,
    30_000_000_000,
];

/// The bounds in seconds, as the label `le` spells them.
pub const BOUND_LABELS: [&'static str; 10] = [
    "0.005",
    "0.025",
    "0.1",
    "0.25",
    "0.5",
    "1",
    "2.5",
    "5",
    "10",
    "30",
];

/// The counters of one route.
#[derive(Clone, Copy)]
pub struct RouteHist {
    buckets: [u64; 11],
    sum_micros: u64,
    count: u64,
}

/// What a [`RouteHist`] holds: the number of observations in each bucket, the
/// sum of the observed durations in microseconds and the number of
/// observations. All of them wrap around.
pub struct RouteHistView {
    pub buckets: Seq<u64>,
    pub sum_micros: u64,
    pub count: u64,
}

impl View for RouteHist {
    type V = RouteHistView;

    closed spec fn view(&self) -> RouteHistView {
        RouteHistView { buckets: self.buckets@, sum_micros: self.sum_micros, count: self.count }
    }
}

/// A histogram without observations.
pub open spec fn empty_hist() -> RouteHistView {
    RouteHistView { buckets: Seq::new(11, |i: int| 0u64), sum_micros: 0, count: 0 }
}

/// No histogram at all.
pub open spec fn no_histograms() -> Map<Seq<char>, RouteHistView> {
    Map::empty()
}

/// `value` as a counter that wraps around holds it.
pub open spec fn wrapped(value: int) -> u64 {
    (value % 0x1_0000_0000_0000_0000) as u64
}

/// The first bucket from `from` on whose bound is not below `nanos`.
pub open spec fn bucket_from(nanos: nat, from: int) -> int
    decreases 10 - from,
{
    if from >= 10 || nanos <= BOUNDS_NANOS@[from] {
        from
    } else {
        bucket_from(nanos, from + 1)
    }
}

/// The bucket of an observation of `nanos` nanoseconds.
pub open spec fn bucket_of(nanos: nat) -> int {
    bucket_from(nanos, 0)
}

/// `hist` with one more observation, of `nanos` nanoseconds, that adds
/// `micros` to the sum.
pub open spec fn observed(hist: RouteHistView, nanos: nat, micros: u64) -> RouteHistView {
    let bucket = bucket_of(nanos);
    RouteHistView {
        buckets: hist.buckets.update(bucket, wrapped(hist.buckets[bucket] + 1)),
        sum_micros: wrapped(hist.sum_micros + micros),
        count: wrapped(hist.count + 1),
    }
}

/// The histogram of `route`, which has no observations where none was kept.
pub open spec fn hist_of(
    histograms: Map<Seq<char>, RouteHistView>,
    route: Seq<char>,
) -> RouteHistView {
    if histograms.contains_key(route) {
        histograms[route]
    } else {
        empty_hist()
    }
}

/// `histograms` with one more observation of `route`.
pub open spec fn recorded(
    histograms: Map<Seq<char>, RouteHistView>,
    route: Seq<char>,
    nanos: nat,
    micros: u64,
) -> Map<Seq<char>, RouteHistView> {
    histograms.insert(route, observed(hist_of(histograms, route), nanos, micros))
}

/// The sum of the first `n` buckets.
pub open spec fn total(buckets: Seq<u64>, n: int) -> int
    decreases n,
{
    if n <= 0 {
        0
    } else {
        total(buckets, n - 1) + buckets[n - 1]
    }
}

/// The number of observations is that of all buckets together.
pub open spec fn balanced(hist: RouteHistView) -> bool {
    &&& hist.buckets.len() == 11
    &&& hist.count == wrapped(total(hist.buckets, 11))
}

pub(crate) proof fn lemma_bucket_from(nanos: nat, from: int)
    requires
        0 <= from <= 10,
    ensures
        from <= bucket_from(nanos, from) <= 10,
        forall|i: int|
            from <= i < bucket_from(nanos, from) ==> nanos > #[trigger] BOUNDS_NANOS@[i],
        bucket_from(nanos, from) < 10 ==> nanos <= BOUNDS_NANOS@[bucket_from(nanos, from)],
    decreases 10 - from,
{
    if from < 10 && nanos > BOUNDS_NANOS@[from] {
        lemma_bucket_from(nanos, from + 1);
    }
}

pub(crate) proof fn lemma_total_update(buckets: Seq<u64>, at: int, value: u64, n: int)
    requires
        0 <= at < buckets.len(),
        0 <= n <= buckets.len(),
    ensures
        total(buckets.update(at, value), n) == total(buckets, n) + if at < n {
            value - buckets[at]
        } else {
            0
        },
    decreases n,
{
    if n > 0 {
        lemma_total_update(buckets, at, value, n - 1);
    }
}

/// One more observation keeps a histogram balanced.
proof fn lemma_observed_balanced(hist: RouteHistView, nanos: nat, micros: u64)
    requires
        balanced(hist),
    ensures
        balanced(observed(hist, nanos, micros)),
{
    let bucket = bucket_of(nanos);
    lemma_bucket_from(nanos, 0);
    lemma_total_update(hist.buckets, bucket, wrapped(hist.buckets[bucket] + 1), 11);
}

pub(crate) proof fn lemma_empty_total(n: int)
    requires
        0 <= n <= 11,
    ensures
        total(empty_hist().buckets, n) == 0,
    decreases n,
{
    if n > 0 {
        lemma_empty_total(n - 1);
    }
}

impl Default for RouteHist {
    fn default() -> (res: RouteHist)
        ensures
            res@ == empty_hist(),
    {
        let res = RouteHist { buckets: [0u64; 11], sum_micros: 0, count: 0 };
        assert(res@.buckets =~= empty_hist().buckets);
        res
    }
}

/// The bucket of a duration.
pub fn bucket_index(nanos: u128) -> (res: usize)
    ensures
        res == bucket_of(nanos as nat),
        res <= 10,
{
    let mut i: usize = 0;
    while i < 10 && nanos > BOUNDS_NANOS[i] as u128
        invariant
            i <= 10,
            bucket_of(nanos as nat) == bucket_from(nanos as nat, i as int),
        decreases 10 - i,
    {
        i = i + 1;
    }
    i
}

impl RouteHist {
    /// Counts one observation.
    pub fn observe(&mut self, nanos: u128, micros: u64)
        ensures
            final(self)@ == observed(old(self)@, nanos as nat, micros),
    {
        let bucket = bucket_index(nanos);
        let hits: u64 = self.buckets[bucket];
        self.buckets[bucket] = hits.wrapping_add(1);
        self.sum_micros = self.sum_micros.wrapping_add(micros);
        self.count = self.count.wrapping_add(1);
        assert(self@.buckets =~= observed(old(self)@, nanos as nat, micros).buckets);
    }
}

/// `dashmap::DashMap`, a hash map.
#[verifier::external_type_specification]
#[verifier::external_body]
#[verifier::reject_recursive_types(K)]
#[verifier::reject_recursive_types(V)]
#[verifier::reject_recursive_types(S)]
pub struct ExDashMap<K, V, S>(dashmap::DashMap<K, V, S>);

/// What a `DashMap` of histograms holds: the counters of each of its keys.
pub uninterp spec fn histograms_in(map: DashMap<String, RouteHist>) -> Map<
    Seq<char>,
    RouteHistView,
>;

/// `DashMap::new`: the map holds nothing.
#[verifier::external_body]
fn new_map() -> (res: DashMap<String, RouteHist>)
    ensures
        histograms_in(res) == no_histograms(),
{
    DashMap::new()
}

/// `DashMap::entry` and `Entry::or_default`: a key that is not there gets the
/// default value, nothing else changes, and the value of the key is handed out.
#[verifier::external_body]
fn entry_or_default(map: &mut DashMap<String, RouteHist>, key: String) -> (value: RouteHist)
    ensures
        histograms_in(*final(map)) == if histograms_in(*old(map)).contains_key(key@) {
            histograms_in(*old(map))
        } else {
            histograms_in(*old(map)).insert(key@, empty_hist())
        },
        histograms_in(*final(map))[key@] == value@,
{
    *map.entry(key).or_default()
}

/// `DashMap::insert`: the key gets the value, nothing else changes.
#[verifier::external_body]
fn insert(map: &mut DashMap<String, RouteHist>, key: String, value: RouteHist)
    ensures
        histograms_in(*final(map)) == histograms_in(*old(map)).insert(key@, value@),
{
    map.insert(key, value);
}

/// `DashMap::is_empty`.
#[verifier::external_body]
fn is_empty(map: &DashMap<String, RouteHist>) -> (res: bool)
    ensures
        res == (histograms_in(*map) == no_histograms()),
{
    map.is_empty()
}

/// `DashMap::iter`: hands out each entry once, in an order that is not said.
#[verifier::external_body]
fn entries(map: &DashMap<String, RouteHist>) -> (res: Vec<(String, RouteHist)>)
    ensures
        lists(
            Seq::new(res@.len(), |i: int| (res@[i].0@, res@[i].1@)),
            histograms_in(*map),
        ),
{
    map.iter().map(|entry| (entry.key().clone(), *entry.value())).collect()
}

/// The histograms of all routes that were recorded.
pub struct HistogramRegistry {
    histograms: DashMap<String, RouteHist>,
}

impl View for HistogramRegistry {
    type V = Map<Seq<char>, RouteHistView>;

    closed spec fn view(&self) -> Map<Seq<char>, RouteHistView> {
        histograms_in(self.histograms)
    }
}

impl HistogramRegistry {
    /// Each histogram is balanced.
    pub open spec fn wf(&self) -> bool {
        forall|route: Seq<char>| #[trigger] self@.contains_key(route) ==> balanced(self@[route])
    }

    /// A registry without histograms.
    pub fn new() -> (res: HistogramRegistry)
        ensures
            res.wf(),
            res@ == no_histograms(),
    {
        HistogramRegistry { histograms: new_map() }
    }

    /// Records that a request of `route` took `nanos` nanoseconds, which count
    /// as `micros` whole microseconds in the sum.
    pub fn record(&mut self, route: &str, nanos: u128, micros: u64)
        requires
            old(self).wf(),
        ensures
            final(self).wf(),
            final(self)@ == recorded(old(self)@, route@, nanos as nat, micros),
    {
        let mut hist = entry_or_default(&mut self.histograms, route.to_string());
        proof {
            lemma_empty_total(11);
            assert(hist@ == hist_of(old(self)@, route@));
            assert(old(self)@.contains_key(route@) ==> balanced(old(self)@[route@]));
            lemma_observed_balanced(hist@, nanos as nat, micros);
        }
        hist.observe(nanos, micros);
        insert(&mut self.histograms, route.to_string(), hist);
        assert(self@ =~= recorded(old(self)@, route@, nanos as nat, micros));
    }
}

/// One line of a bucket: how many observations did not exceed `le`.
pub open spec fn bucket_line(route: Seq<char>, le: Seq<char>, count: u64) -> Seq<char> {
    "rari_ssr_request_duration_seconds_bucket{route=\""@ + escaped(route) + "\",le=\""@ + le + "\"} "@
        + decimal(count as nat) + "\n"@
}

/// The lines of the first `n` buckets that have a bound. Each counts the
/// observations of its bucket and of those before it.
pub open spec fn bucket_lines(route: Seq<char>, buckets: Seq<u64>, n: int) -> Seq<char>
    decreases n,
{
    if n <= 0 {
        Seq::empty()
    } else {
        bucket_lines(route, buckets, n - 1) + bucket_line(
            route,
            BOUND_LABELS@[n - 1]@,
            wrapped(total(buckets, n)),
        )
    }
}

/// The line with the sum of the durations, which `seconds` spells.
pub open spec fn sum_line(route: Seq<char>, seconds: Seq<char>) -> Seq<char> {
    "rari_ssr_request_duration_seconds_sum{route=\""@ + escaped(route) + "\"} "@ + seconds + "\n"@
}

/// The line with the number of observations.
pub open spec fn count_line(route: Seq<char>, count: u64) -> Seq<char> {
    "rari_ssr_request_duration_seconds_count{route=\""@ + escaped(route) + "\"} "@ + decimal(count as nat)
        + "\n"@
}

/// The lines of one route.
pub open spec fn route_lines(
    route: Seq<char>,
    hist: RouteHistView,
    seconds: Seq<char>,
) -> Seq<char> {
    bucket_lines(route, hist.buckets, 10) + bucket_line(
        route,
        "+Inf"@,
        wrapped(total(hist.buckets, 11)),
    ) + sum_line(route, seconds) + count_line(route, hist.count)
}

fn push_bucket_line(out: &mut String, route: &str, le: &str, count: u64)
    ensures
        final(out)@ == old(out)@ + bucket_line(route@, le@, count),
{
    let mut line = "rari_ssr_request_duration_seconds_bucket{route=\"".to_string();
    push_escaped(&mut line, route);
    line.append("\",le=\"");
    line.append(le);
    line.append("\"} ");
    push_decimal(&mut line, count);
    line.append("\n");
    out.append(line.as_str());
}

fn push_sum_line(out: &mut String, route: &str, seconds: &str)
    ensures
        final(out)@ == old(out)@ + sum_line(route@, seconds@),
{
    let mut line = "rari_ssr_request_duration_seconds_sum{route=\"".to_string();
    push_escaped(&mut line, route);
    line.append("\"} ");
    line.append(seconds);
    line.append("\n");
    out.append(line.as_str());
}

fn push_count_line(out: &mut String, route: &str, count: u64)
    ensures
        final(out)@ == old(out)@ + count_line(route@, count),
{
    let mut line = "rari_ssr_request_duration_seconds_count{route=\"".to_string();
    push_escaped(&mut line, route);
    line.append("\"} ");
    push_decimal(&mut line, count);
    line.append("\n");
    out.append(line.as_str());
}

/// The lines of the buckets that have a bound, and the running sum after the
/// last of them.
fn bounded_lines(route: &str, hist: &RouteHist) -> (res: (String, u64))
    ensures
        res.0@ == bucket_lines(route@, hist@.buckets, 10),
        res.1 == wrapped(total(hist@.buckets, 10)),
{
    let mut lines = String::new();
    let mut cumulative: u64 = 0;
    let mut i: usize = 0;
    while i < 10
        invariant
            i <= 10,
            cumulative == wrapped(total(hist@.buckets, i as int)),
            lines@ == bucket_lines(route@, hist@.buckets, i as int),
        decreases 10 - i,
    {
        cumulative = cumulative.wrapping_add(hist.buckets[i]);
        push_bucket_line(&mut lines, route, BOUND_LABELS[i], cumulative);
        i = i + 1;
    }
    (lines, cumulative)
}

/// Renders the histogram of one route in Prometheus text format. `seconds`
/// spells the sum of the durations in seconds.
pub fn render_route(out: &mut String, route: &str, hist: &RouteHist, seconds: &str)
    ensures
        final(out)@ == old(out)@ + route_lines(route@, hist@, seconds@),
{
    let (mut lines, cumulative) = bounded_lines(route, hist);
    let all: u64 = cumulative.wrapping_add(hist.buckets[10]);
    assert(all == wrapped(total(hist@.buckets, 11)));
    push_bucket_line(&mut lines, route, "+Inf", all);
    push_sum_line(&mut lines, route, seconds);
    push_count_line(&mut lines, route, hist.count);
    out.append(lines.as_str());
}

/// The lines of the routes in `entries`, in their order, with the sums that
/// `seconds` spells.
pub open spec fn all_lines(
    entries: Seq<(Seq<char>, RouteHistView)>,
    seconds: Seq<String>,
    n: int,
) -> Seq<char>
    decreases n,
{
    if n <= 0 {
        Seq::empty()
    } else {
        all_lines(entries, seconds, n - 1) + route_lines(
            entries[n - 1].0,
            entries[n - 1].1,
            seconds[n - 1]@,
        )
    }
}

/// `seconds` spells a sum of `micros` microseconds in seconds. `spell` has a say
/// only in sums so large that a double-precision number does not tell them from
/// the next.
pub open spec fn spelled<F: Fn(u64) -> String>(spell: F, micros: u64, seconds: String) -> bool {
    if micros < EXACT_MICROS {
        seconds@ == seconds_text(micros)
    } else {
        call_ensures(spell, (micros,), seconds)
    }
}

fn spell_sum<F: Fn(u64) -> String>(spell: &F, micros: u64) -> (res: String)
    requires
        forall|micros: u64| micros >= EXACT_MICROS ==> call_requires(*spell, (micros,)),
    ensures
        spelled(*spell, micros, res),
{
    if micros < EXACT_MICROS {
        write_seconds(micros)
    } else {
        spell(micros)
    }
}

/// `page` is what is rendered of `histograms`: nothing where there is none,
/// else the type line and the lines of each route, in some order. `seconds`
/// spells the sums.
pub open spec fn is_page<F: Fn(u64) -> String>(
    page: Seq<char>,
    histograms: Map<Seq<char>, RouteHistView>,
    spell: F,
    entries: Seq<(Seq<char>, RouteHistView)>,
    seconds: Seq<String>,
) -> bool {
    &&& lists(entries, histograms)
    &&& seconds.len() == entries.len()
    &&& forall|i: int|
        0 <= i < entries.len() ==> spelled(
            spell,
            (#[trigger] entries[i]).1.sum_micros,
            seconds[i],
        )
    &&& page == if entries.len() == 0 {
        Seq::empty()
    } else {
        "# TYPE rari_ssr_request_duration_seconds histogram\n"@ + all_lines(
            entries,
            seconds,
            entries.len() as int,
        )
    }
}

/// Renders all histograms in Prometheus text format. `spell` spells a sum of
/// microseconds in seconds that is not below [`EXACT_MICROS`].
pub fn render_prometheus<F: Fn(u64) -> String>(
    out: &mut String,
    registry: &HistogramRegistry,
    spell: F,
)
    requires
        forall|micros: u64| micros >= EXACT_MICROS ==> call_requires(spell, (micros,)),
    ensures
        exists|
            page: Seq<char>,
            entries: Seq<(Seq<char>, RouteHistView)>,
            seconds: Seq<String>,
        | #[trigger]
            is_page(page, registry@, spell, entries, seconds) && final(out)@ == old(out)@ + page,
{
    if is_empty(&registry.histograms) {
        let ghost none: Seq<(Seq<char>, RouteHistView)> = Seq::empty();
        assert(is_page(Seq::empty(), registry@, spell, none, Seq::empty()));
        assert(out@ =~= old(out)@ + Seq::<char>::empty());
        return;
    }
    let routes = entries(&registry.histograms);
    let ghost listed = Seq::new(routes@.len(), |i: int| (routes@[i].0@, routes@[i].1@));
    let mut page = "# TYPE rari_ssr_request_duration_seconds histogram\n".to_string();
    let ghost header = page@;
    let mut lines = String::new();
    let ghost mut seconds: Seq<String> = Seq::empty();
    let mut i: usize = 0;
    while i < routes.len()
        invariant
            i <= routes.len(),
            forall|micros: u64| micros >= EXACT_MICROS ==> call_requires(spell, (micros,)),
            listed == Seq::new(routes@.len(), |i: int| (routes@[i].0@, routes@[i].1@)),
            seconds.len() == i,
            forall|j: int|
                0 <= j < i ==> spelled(
                    spell,
                    (#[trigger] listed[j]).1.sum_micros,
                    seconds[j],
                ),
            lines@ == all_lines(listed, seconds, i as int),
        decreases routes.len() - i,
    {
        let sum = spell_sum(&spell, routes[i].1.sum_micros);
        let ghost before = seconds;
        proof {
            seconds = seconds.push(sum);
            lemma_all_lines_prefix(listed, before, seconds, i as int);
        }
        render_route(&mut lines, routes[i].0.as_str(), &routes[i].1, sum.as_str());
        i = i + 1;
    }
    page.append(lines.as_str());
    proof {
        if listed.len() == 0 {
            assert(registry@ =~= no_histograms());
        }
        assert(is_page(page@, registry@, spell, listed, seconds));
    }
    out.append(page.as_str());
}

proof fn lemma_all_lines_prefix(
    entries: Seq<(Seq<char>, RouteHistView)>,
    one: Seq<String>,
    other: Seq<String>,
    n: int,
)
    requires
        n <= one.len(),
        n <= other.len(),
        forall|i: int| 0 <= i < n ==> one[i] == other[i],
    ensures
        all_lines(entries, one, n) == all_lines(entries, other, n),
    decreases n,
{
    if n > 0 {
        lemma_all_lines_prefix(entries, one, other, n - 1);
    }
}

/// `std::time::Instant`, a reading of the monotonic clock.
#[verifier::external_type_specification]
#[verifier::external_body]
pub struct ExInstant(std::time::Instant);

/// `Instant::now` reads the clock; nothing is claimed of the reading.
pub assume_specification[ std::time::Instant::now ]() -> Instant;

/// A request under way: its route and when it came in.
pub struct RequestTimer {
    route: String,
    start: Instant,
}

impl RequestTimer {
    /// The route that is timed.
    pub closed spec fn route_view(&self) -> Seq<char> {
        self.route@
    }

    /// When the request came in.
    pub closed spec fn start_view(&self) -> Instant {
        self.start
    }

    /// Starts the clock for a request of `route`.
    pub fn start(route: &str) -> (res: RequestTimer)
        ensures
            res.route_view() == route@,
            call_ensures(Instant::now, (), res.start_view()),
    {
        RequestTimer { route: route.to_string(), start: ask(Instant::now) }
    }

    /// When the request came in.
    pub fn started_at(&self) -> (res: Instant)
        ensures
            res == self.start_view(),
    {
        self.start
    }

    /// Records the request, which took `nanos` nanoseconds, under its route. The
    /// timer is spent, so a request is recorded once.
    pub fn finish(self, registry: &mut HistogramRegistry, nanos: u128, micros: u64)
        requires
            old(registry).wf(),
        ensures
            final(registry).wf(),
            final(registry)@ == recorded(
                old(registry)@,
                self.route_view(),
                nanos as nat,
                micros,
            ),
    {
        registry.record(self.route.as_str(), nanos, micros);
    }
}

} // verus!
