//! What holds of the histograms whatever is recorded, and in whatever order.

use vstd::prelude::*;

use crate::listing::lists;
use crate::metrics_http::all_lines;
use crate::metrics_http::balanced;
use crate::metrics_http::bucket_of;
use crate::metrics_http::empty_hist;
use crate::metrics_http::hist_of;
use crate::metrics_http::is_page;
use crate::metrics_http::lemma_bucket_from;
use crate::metrics_http::lemma_empty_total;
use crate::metrics_http::lemma_total_update;
use crate::metrics_http::no_histograms;
use crate::metrics_http::observed;
use crate::metrics_http::recorded;
use crate::metrics_http::route_lines;
use crate::metrics_http::spelled;
use crate::metrics_http::total;
use crate::metrics_http::wrapped;
use crate::metrics_http::RouteHistView;
use crate::metrics_http::BOUNDS_NANOS;
use crate::seconds::EXACT_MICROS;

verus! {

/// One finished request.
pub struct Observation {
    pub route: Seq<char>,
    pub nanos: nat,
    pub micros: u64,
}

/// `histograms` after `requests` were recorded, in their order.
pub open spec fn after_from(
    histograms: Map<Seq<char>, RouteHistView>,
    requests: Seq<Observation>,
) -> Map<Seq<char>, RouteHistView>
    decreases requests.len(),
{
    if requests.len() == 0 {
        histograms
    } else {
        let last = requests.last();
        recorded(after_from(histograms, requests.drop_last()), last.route, last.nanos, last.micros)
    }
}

/// The histograms after `requests` were recorded, in their order, and nothing
/// before.
pub open spec fn after(requests: Seq<Observation>) -> Map<Seq<char>, RouteHistView> {
    after_from(no_histograms(), requests)
}

/// Each histogram has all its buckets.
pub open spec fn complete(histograms: Map<Seq<char>, RouteHistView>) -> bool {
    forall|route: Seq<char>| #[trigger]
        histograms.contains_key(route) ==> histograms[route].buckets.len() == 11
}

/// How many of `requests` were of `route`.
pub open spec fn requests_of(requests: Seq<Observation>, route: Seq<char>) -> nat
    decreases requests.len(),
{
    if requests.len() == 0 {
        0
    } else {
        requests_of(requests.drop_last(), route) + if requests.last().route == route {
            1nat
        } else {
            0
        }
    }
}

/// How many of `requests` were of `route` and took at most `nanos`.
pub open spec fn requests_within(requests: Seq<Observation>, route: Seq<char>, nanos: nat) -> nat
    decreases requests.len(),
{
    if requests.len() == 0 {
        0
    } else {
        requests_within(requests.drop_last(), route, nanos) + if requests.last().route == route
            && requests.last().nanos <= nanos {
            1nat
        } else {
            0
        }
    }
}

/// The microseconds that the `requests` of `route` add up to.
pub open spec fn micros_of(requests: Seq<Observation>, route: Seq<char>) -> nat
    decreases requests.len(),
{
    if requests.len() == 0 {
        0
    } else {
        micros_of(requests.drop_last(), route) + if requests.last().route == route {
            requests.last().micros as nat
        } else {
            0
        }
    }
}

/// An observation goes to the first bucket whose bound it does not exceed, and
/// to the last one where it exceeds them all.
pub proof fn law_bucket_is_first_that_holds(nanos: nat, bucket: int)
    requires
        0 <= bucket <= 10,
    ensures
        bucket == bucket_of(nanos) <==> {
            &&& forall|i: int| 0 <= i < bucket ==> nanos > #[trigger] BOUNDS_NANOS@[i]
            &&& bucket < 10 ==> nanos <= BOUNDS_NANOS@[bucket]
        },
{
    lemma_bucket_from(nanos, 0);
    let own = bucket_of(nanos);
    if own < bucket {
        assert(nanos <= BOUNDS_NANOS@[own]);
    }
}

/// One observation makes the running sum up to bucket `n` one larger where it
/// does not exceed the bound of that bucket, and leaves it alone elsewhere.
proof fn lemma_running_sum(hist: RouteHistView, nanos: nat, micros: u64, n: int)
    requires
        hist.buckets.len() == 11,
        1 <= n <= 11,
    ensures
        observed(hist, nanos, micros).buckets.len() == 11,
        wrapped(total(observed(hist, nanos, micros).buckets, n)) == wrapped(
            total(hist.buckets, n) + if n == 11 || nanos <= BOUNDS_NANOS@[n - 1] {
                1int
            } else {
                0
            },
        ),
{
    let bucket = bucket_of(nanos);
    lemma_bucket_from(nanos, 0);
    lemma_total_update(hist.buckets, bucket, wrapped(hist.buckets[bucket] + 1), n);
    lemma_bounds_ascend();
    if n < 11 && nanos <= BOUNDS_NANOS@[n - 1] && bucket >= n {
        assert(nanos > BOUNDS_NANOS@[n - 1]);
    }
    if n < 11 && nanos > BOUNDS_NANOS@[n - 1] && bucket < n {
        assert(nanos <= BOUNDS_NANOS@[bucket]);
    }
}

proof fn lemma_bounds_ascend()
    ensures
        forall|i: int, j: int|
            0 <= i <= j < 10 ==> #[trigger] BOUNDS_NANOS@[i] <= #[trigger] BOUNDS_NANOS@[j],
{
}

/// A route has a histogram if and only if a request of it was recorded, so
/// there are no more histograms than routes.
pub proof fn law_only_recorded_routes(requests: Seq<Observation>, route: Seq<char>)
    ensures
        after(requests).contains_key(route) <==> requests_of(requests, route) > 0,
    decreases requests.len(),
{
    if requests.len() > 0 {
        law_only_recorded_routes(requests.drop_last(), route);
    }
}

/// The line of a bucket counts the requests of its route that took no longer
/// than its bound.
pub proof fn law_bucket_counts_requests_within_bound(
    requests: Seq<Observation>,
    route: Seq<char>,
    bucket: int,
)
    requires
        0 <= bucket < 10,
    ensures
        hist_of(after(requests), route).buckets.len() == 11,
        wrapped(total(hist_of(after(requests), route).buckets, bucket + 1)) == wrapped(
            requests_within(requests, route, BOUNDS_NANOS@[bucket] as nat) as int,
        ),
    decreases requests.len(),
{
    if requests.len() == 0 {
        lemma_empty_total(bucket + 1);
    } else {
        let before = requests.drop_last();
        let last = requests.last();
        law_bucket_counts_requests_within_bound(before, route, bucket);
        if last.route == route {
            lemma_running_sum(
                hist_of(after(before), route),
                last.nanos,
                last.micros,
                bucket + 1,
            );
        }
    }
}

/// The line of the unbounded bucket, and the line of the count, both count all
/// requests of the route.
pub proof fn law_inf_bucket_is_count(requests: Seq<Observation>, route: Seq<char>)
    ensures
        balanced(hist_of(after(requests), route)),
        hist_of(after(requests), route).count == wrapped(requests_of(requests, route) as int),
        wrapped(total(hist_of(after(requests), route).buckets, 11)) == hist_of(
            after(requests),
            route,
        ).count,
    decreases requests.len(),
{
    if requests.len() == 0 {
        lemma_empty_total(11);
    } else {
        let before = requests.drop_last();
        let last = requests.last();
        law_inf_bucket_is_count(before, route);
        if last.route == route {
            lemma_running_sum(hist_of(after(before), route), last.nanos, last.micros, 11);
        }
    }
}

/// The sum is that of the microseconds of all requests of the route.
pub proof fn law_sum_adds_up(requests: Seq<Observation>, route: Seq<char>)
    ensures
        hist_of(after(requests), route).sum_micros == wrapped(micros_of(requests, route) as int),
    decreases requests.len(),
{
    if requests.len() > 0 {
        law_sum_adds_up(requests.drop_last(), route);
    }
}

/// The lines of a route never decrease from one bound to the next, as long as
/// the counters have not wrapped around.
pub proof fn law_bucket_lines_ascend(buckets: Seq<u64>, n: int, m: int)
    requires
        buckets.len() == 11,
        0 <= n <= m <= 11,
        total(buckets, 11) <= u64::MAX,
    ensures
        wrapped(total(buckets, n)) <= wrapped(total(buckets, m)),
{
    lemma_total_ascends(buckets, 0, n);
    lemma_total_ascends(buckets, n, m);
    lemma_total_ascends(buckets, m, 11);
}

proof fn lemma_total_ascends(buckets: Seq<u64>, n: int, m: int)
    requires
        0 <= n <= m <= buckets.len(),
    ensures
        total(buckets, n) <= total(buckets, m),
    decreases m,
{
    if n < m {
        lemma_total_ascends(buckets, n, m - 1);
    }
}

proof fn lemma_observations_commute(hist: RouteHistView, one: Observation, other: Observation)
    requires
        hist.buckets.len() == 11,
    ensures
        observed(observed(hist, one.nanos, one.micros), other.nanos, other.micros) == observed(
            observed(hist, other.nanos, other.micros),
            one.nanos,
            one.micros,
        ),
{
    lemma_bucket_from(one.nanos, 0);
    lemma_bucket_from(other.nanos, 0);
    let ab = observed(observed(hist, one.nanos, one.micros), other.nanos, other.micros);
    let ba = observed(observed(hist, other.nanos, other.micros), one.nanos, one.micros);
    assert(ab.buckets =~= ba.buckets);
    lemma_wrapped_adds_commute(hist.sum_micros as int, one.micros as int, other.micros as int);
}

proof fn lemma_wrapped_adds_commute(start: int, one: int, other: int)
    ensures
        wrapped(wrapped(start + one) + other) == wrapped(start + one + other),
        wrapped(wrapped(start + other) + one) == wrapped(start + one + other),
{
}

/// Two requests leave the same histograms in whichever order they end.
pub proof fn law_records_commute(
    histograms: Map<Seq<char>, RouteHistView>,
    one: Observation,
    other: Observation,
)
    requires
        complete(histograms),
    ensures
        recorded(
            recorded(histograms, one.route, one.nanos, one.micros),
            other.route,
            other.nanos,
            other.micros,
        ) == recorded(
            recorded(histograms, other.route, other.nanos, other.micros),
            one.route,
            one.nanos,
            one.micros,
        ),
{
    let ab = recorded(
        recorded(histograms, one.route, one.nanos, one.micros),
        other.route,
        other.nanos,
        other.micros,
    );
    let ba = recorded(
        recorded(histograms, other.route, other.nanos, other.micros),
        one.route,
        one.nanos,
        one.micros,
    );
    if one.route == other.route {
        lemma_observations_commute(hist_of(histograms, one.route), one, other);
    }
    assert(ab =~= ba);
}

proof fn lemma_after_complete(
    histograms: Map<Seq<char>, RouteHistView>,
    requests: Seq<Observation>,
)
    requires
        complete(histograms),
    ensures
        complete(after_from(histograms, requests)),
    decreases requests.len(),
{
    if requests.len() > 0 {
        let before = after_from(histograms, requests.drop_last());
        lemma_after_complete(histograms, requests.drop_last());
        lemma_bucket_from(requests.last().nanos, 0);
        assert forall|route: Seq<char>| #[trigger]
            after_from(histograms, requests).contains_key(route) implies after_from(
            histograms,
            requests,
        )[route].buckets.len() == 11 by {
            assert(before.contains_key(route) ==> before[route].buckets.len() == 11);
        }
    }
}

/// Any of the requests can as well be recorded last.
proof fn lemma_recorded_last(
    histograms: Map<Seq<char>, RouteHistView>,
    requests: Seq<Observation>,
    i: int,
)
    requires
        complete(histograms),
        0 <= i < requests.len(),
    ensures
        after_from(histograms, requests) == recorded(
            after_from(histograms, requests.remove(i)),
            requests[i].route,
            requests[i].nanos,
            requests[i].micros,
        ),
    decreases requests.len(),
{
    let head = requests.drop_last();
    let rest = requests.remove(i);
    if i == requests.len() - 1 {
        assert(rest =~= head);
    } else {
        lemma_recorded_last(histograms, head, i);
        lemma_after_complete(histograms, head.remove(i));
        law_records_commute(
            after_from(histograms, head.remove(i)),
            requests[i],
            requests.last(),
        );
        assert(rest.drop_last() =~= head.remove(i));
        assert(rest.last() == requests.last());
    }
}

/// The same requests leave the same histograms in whatever order they end.
pub proof fn law_order_does_not_matter(
    histograms: Map<Seq<char>, RouteHistView>,
    one: Seq<Observation>,
    other: Seq<Observation>,
)
    requires
        complete(histograms),
        one.to_multiset() == other.to_multiset(),
    ensures
        after_from(histograms, one) == after_from(histograms, other),
    decreases one.len(),
{
    broadcast use vstd::seq_lib::group_to_multiset_ensures;

    assert(one.len() == one.to_multiset().len());
    assert(other.len() == other.to_multiset().len());
    if one.len() > 0 {
        let last = one.last();
        assert(one.contains(last));
        assert(other.to_multiset().count(last) > 0);
        let i = choose|i: int| 0 <= i < other.len() && other[i] == last;
        assert(one.remove(one.len() - 1) =~= one.drop_last());
        law_order_does_not_matter(histograms, one.drop_last(), other.remove(i));
        lemma_recorded_last(histograms, other, i);
    }
}

/// Every finished timer is counted once: the count of a route grows by the
/// number of its timers, whatever other routes were timed meanwhile.
pub proof fn law_finished_timers_are_counted(
    histograms: Map<Seq<char>, RouteHistView>,
    timers: Seq<Observation>,
    route: Seq<char>,
)
    ensures
        hist_of(after_from(histograms, timers), route).count == wrapped(
            hist_of(histograms, route).count + requests_of(timers, route),
        ),
        (forall|i: int| 0 <= i < timers.len() ==> (#[trigger] timers[i]).route == route)
            ==> requests_of(timers, route) == timers.len(),
    decreases timers.len(),
{
    if timers.len() > 0 {
        let rest = timers.drop_last();
        law_finished_timers_are_counted(histograms, rest, route);
        if forall|i: int| 0 <= i < timers.len() ==> (#[trigger] timers[i]).route == route {
            assert forall|i: int| 0 <= i < rest.len() implies (#[trigger] rest[i]).route
                == route by {
                assert(timers[i].route == route);
            }
            assert(timers[timers.len() - 1].route == route);
        }
    }
}

/// One more request of a route shows, as long as the counters do not wrap
/// around: the line of a bucket grows by one where the request took no longer
/// than its bound, and else stays; the unbounded bucket and the count grow by
/// one; the sum grows by the microseconds. Nothing changes for other routes.
pub proof fn law_one_record_shows(
    histograms: Map<Seq<char>, RouteHistView>,
    request: Observation,
    bucket: int,
    other: Seq<char>,
)
    requires
        balanced(hist_of(histograms, request.route)),
        total(hist_of(histograms, request.route).buckets, 11) < u64::MAX,
        0 <= bucket <= 10,
        other != request.route,
    ensures
        ({
            let before = hist_of(histograms, request.route);
            let later = recorded(histograms, request.route, request.nanos, request.micros);
            let now = hist_of(later, request.route);
            &&& wrapped(total(now.buckets, bucket + 1)) == wrapped(
                total(before.buckets, bucket + 1),
            ) + if bucket == 10 || request.nanos <= BOUNDS_NANOS@[bucket] {
                1int
            } else {
                0
            }
            &&& now.count == before.count + 1
            &&& now.sum_micros == wrapped(before.sum_micros + request.micros)
            &&& before.sum_micros + request.micros <= u64::MAX ==> now.sum_micros
                == before.sum_micros + request.micros
            &&& hist_of(later, other) == hist_of(histograms, other)
            &&& later.contains_key(other) == histograms.contains_key(other)
        }),
{
    let before = hist_of(histograms, request.route);
    lemma_running_sum(before, request.nanos, request.micros, bucket + 1);
    lemma_total_ascends(before.buckets, 0, bucket + 1);
    lemma_total_ascends(before.buckets, bucket + 1, 11);
}

/// Nothing is rendered of no histograms; of some, the page begins with the type
/// of the metric.
pub proof fn law_page_begins_with_type<F: Fn(u64) -> String>(
    page: Seq<char>,
    histograms: Map<Seq<char>, RouteHistView>,
    spell: F,
    entries: Seq<(Seq<char>, RouteHistView)>,
    seconds: Seq<String>,
)
    requires
        is_page(page, histograms, spell, entries, seconds),
    ensures
        histograms == no_histograms() ==> page.len() == 0,
        histograms != no_histograms()
            ==> "# TYPE rari_ssr_request_duration_seconds histogram\n"@.is_prefix_of(page),
{
    let header = "# TYPE rari_ssr_request_duration_seconds histogram\n"@;
    if entries.len() == 0 {
        assert(histograms =~= no_histograms());
    } else {
        assert(histograms.contains_key(entries[0].0));
        assert(page.take(header.len() as int) =~= header);
    }
}

/// The lines of each route stand on the page, in one piece.
pub proof fn law_each_route_is_rendered<F: Fn(u64) -> String>(
    page: Seq<char>,
    histograms: Map<Seq<char>, RouteHistView>,
    spell: F,
    entries: Seq<(Seq<char>, RouteHistView)>,
    seconds: Seq<String>,
    route: Seq<char>,
)
    requires
        is_page(page, histograms, spell, entries, seconds),
        histograms.contains_key(route),
    ensures
        exists|sum: String, start: int| #[trigger]
            stands_at(page, route_lines(route, histograms[route], sum@), start) && spelled(
                spell,
                histograms[route].sum_micros,
                sum,
            ),
{
    let i = choose|i: int| 0 <= i < entries.len() && (#[trigger] entries[i]).0 == route;
    let header = "# TYPE rari_ssr_request_duration_seconds histogram\n"@;
    let lines = all_lines(entries, seconds, entries.len() as int);
    let own = route_lines(route, histograms[route], seconds[i]@);
    assert(histograms.contains_pair(entries[i].0, entries[i].1));
    let start = lemma_lines_stand(entries, seconds, entries.len() as int, i);
    assert(page.subrange(header.len() + start, header.len() + start + own.len()) =~= own);
    assert(stands_at(page, own, header.len() + start));
}

/// `spell` always spells a sum in one way, if `histograms` have one that is left
/// to it.
pub open spec fn spells_alike<F: Fn(u64) -> String>(
    spell: F,
    histograms: Map<Seq<char>, RouteHistView>,
) -> bool {
    forall|route: Seq<char>, one: String, other: String|
        histograms.contains_key(route) && histograms[route].sum_micros >= EXACT_MICROS
            && #[trigger] call_ensures(spell, (histograms[route].sum_micros,), one)
            && #[trigger] call_ensures(spell, (histograms[route].sum_micros,), other) ==> one@
            == other@
}

/// The pieces of a page behind its first line: the lines of each route.
pub open spec fn blocks(
    entries: Seq<(Seq<char>, RouteHistView)>,
    seconds: Seq<String>,
) -> Seq<Seq<char>> {
    Seq::new(entries.len(), |i: int| route_lines(entries[i].0, entries[i].1, seconds[i]@))
}

proof fn lemma_listings_agree(
    one: Seq<(Seq<char>, RouteHistView)>,
    other: Seq<(Seq<char>, RouteHistView)>,
    histograms: Map<Seq<char>, RouteHistView>,
)
    requires
        lists(one, histograms),
        lists(other, histograms),
    ensures
        one.to_multiset() == other.to_multiset(),
{
    broadcast use vstd::seq_lib::group_to_multiset_ensures;

    one.lemma_multiset_has_no_duplicates();
    other.lemma_multiset_has_no_duplicates();
    assert forall|entry: (Seq<char>, RouteHistView)|
        one.to_multiset().count(entry) == other.to_multiset().count(entry) by {
        lemma_listed_in_both(one, other, histograms, entry);
        lemma_listed_in_both(other, one, histograms, entry);
        assert(one.contains(entry) <==> one.to_multiset().count(entry) > 0);
        assert(other.contains(entry) <==> other.to_multiset().count(entry) > 0);
        assert(one.to_multiset().contains(entry) ==> one.to_multiset().count(entry) == 1);
        assert(other.to_multiset().contains(entry) ==> other.to_multiset().count(entry) == 1);
    }
    assert(one.to_multiset() =~= other.to_multiset());
}

proof fn lemma_listed_in_both(
    one: Seq<(Seq<char>, RouteHistView)>,
    other: Seq<(Seq<char>, RouteHistView)>,
    histograms: Map<Seq<char>, RouteHistView>,
    entry: (Seq<char>, RouteHistView),
)
    requires
        lists(one, histograms),
        lists(other, histograms),
    ensures
        one.contains(entry) ==> other.contains(entry),
{
    if one.contains(entry) {
        let i = choose|i: int| 0 <= i < one.len() && one[i] == entry;
        assert(histograms.contains_pair(one[i].0, one[i].1));
        let j = choose|j: int| 0 <= j < other.len() && (#[trigger] other[j]).0 == entry.0;
        assert(histograms.contains_pair(other[j].0, other[j].1));
    }
}

proof fn lemma_mapped_multisets<A, B>(one: Seq<A>, other: Seq<A>, f: spec_fn(A) -> B)
    requires
        one.to_multiset() == other.to_multiset(),
    ensures
        one.map_values(f).to_multiset() == other.map_values(f).to_multiset(),
    decreases one.len(),
{
    broadcast use vstd::seq_lib::group_to_multiset_ensures;

    assert(one.len() == one.to_multiset().len());
    assert(other.len() == other.to_multiset().len());
    if one.len() == 0 {
        assert(one.map_values(f) =~= other.map_values(f));
    } else {
        let last = one.last();
        assert(one.contains(last));
        assert(other.to_multiset().count(last) > 0);
        let i = choose|i: int| 0 <= i < other.len() && other[i] == last;
        assert(one.remove(one.len() - 1) =~= one.drop_last());
        lemma_mapped_multisets(one.drop_last(), other.remove(i), f);
        assert(one.map_values(f) =~= one.drop_last().map_values(f).push(f(last)));
        assert(other.map_values(f) =~= other.remove(i).map_values(f).insert(i, f(last)));
    }
}

/// Two pages of the same histograms hold the same lines for each route, in
/// whatever order the routes come, if the sums that are left to `spell` are always
/// spelled in one way.
pub proof fn law_renders_agree<F: Fn(u64) -> String>(
    histograms: Map<Seq<char>, RouteHistView>,
    spell: F,
    page: Seq<char>,
    entries: Seq<(Seq<char>, RouteHistView)>,
    seconds: Seq<String>,
    other_page: Seq<char>,
    other_entries: Seq<(Seq<char>, RouteHistView)>,
    other_seconds: Seq<String>,
)
    requires
        spells_alike(spell, histograms),
        is_page(page, histograms, spell, entries, seconds),
        is_page(other_page, histograms, spell, other_entries, other_seconds),
    ensures
        blocks(entries, seconds).to_multiset() == blocks(
            other_entries,
            other_seconds,
        ).to_multiset(),
{
    let text_of = |micros: u64| choose|text: String| spelled(spell, micros, text);
    let block = |entry: (Seq<char>, RouteHistView)|
        route_lines(entry.0, entry.1, text_of(entry.1.sum_micros)@);
    lemma_listings_agree(entries, other_entries, histograms);
    lemma_mapped_multisets(entries, other_entries, block);
    lemma_blocks_mapped(histograms, spell, page, entries, seconds, block);
    lemma_blocks_mapped(histograms, spell, other_page, other_entries, other_seconds, block);
}

proof fn lemma_blocks_mapped<F: Fn(u64) -> String>(
    histograms: Map<Seq<char>, RouteHistView>,
    spell: F,
    page: Seq<char>,
    entries: Seq<(Seq<char>, RouteHistView)>,
    seconds: Seq<String>,
    block: spec_fn((Seq<char>, RouteHistView)) -> Seq<char>,
)
    requires
        spells_alike(spell, histograms),
        is_page(page, histograms, spell, entries, seconds),
        forall|entry: (Seq<char>, RouteHistView)| #[trigger]
            block(entry) == route_lines(
                entry.0,
                entry.1,
                (choose|text: String| spelled(spell, entry.1.sum_micros, text))@,
            ),
    ensures
        blocks(entries, seconds) == entries.map_values(block),
{
    assert forall|i: int| 0 <= i < entries.len() implies blocks(entries, seconds)[i] == block(
        #[trigger] entries[i],
    ) by {
        assert(histograms.contains_pair(entries[i].0, entries[i].1));
        assert(spelled(spell, entries[i].1.sum_micros, seconds[i]));
        let text = choose|text: String| spelled(spell, entries[i].1.sum_micros, text);
        assert(spelled(spell, entries[i].1.sum_micros, text));
        assert(histograms.contains_key(entries[i].0));
    }
    assert(blocks(entries, seconds) =~= entries.map_values(block));
}

/// A page is its first line and its blocks, one behind the other.
pub proof fn law_page_is_its_blocks<F: Fn(u64) -> String>(
    page: Seq<char>,
    histograms: Map<Seq<char>, RouteHistView>,
    spell: F,
    entries: Seq<(Seq<char>, RouteHistView)>,
    seconds: Seq<String>,
)
    requires
        is_page(page, histograms, spell, entries, seconds),
    ensures
        entries.len() > 0 ==> page == "# TYPE rari_ssr_request_duration_seconds histogram\n"@
            + blocks(entries, seconds).flatten(),
{
    lemma_all_lines_are_blocks(entries, seconds, entries.len() as int);
    assert(blocks(entries, seconds).take(entries.len() as int) =~= blocks(entries, seconds));
}

proof fn lemma_all_lines_are_blocks(
    entries: Seq<(Seq<char>, RouteHistView)>,
    seconds: Seq<String>,
    n: int,
)
    requires
        0 <= n <= entries.len(),
    ensures
        all_lines(entries, seconds, n) == blocks(entries, seconds).take(n).flatten(),
    decreases n,
{
    let first = blocks(entries, seconds).take(n);
    if n == 0 {
        assert(first =~= Seq::empty());
    } else {
        lemma_all_lines_are_blocks(entries, seconds, n - 1);
        let before = blocks(entries, seconds).take(n - 1);
        before.lemma_flatten_push(blocks(entries, seconds)[n - 1]);
        assert(first =~= before.push(blocks(entries, seconds)[n - 1]));
    }
}

/// What a request of one route changes on the page leaves the others alone: the
/// lines of another route stand on the page before it and on the one after it.
pub proof fn law_other_routes_stay<F: Fn(u64) -> String>(
    histograms: Map<Seq<char>, RouteHistView>,
    request: Observation,
    other: Seq<char>,
    spell: F,
    page: Seq<char>,
    entries: Seq<(Seq<char>, RouteHistView)>,
    seconds: Seq<String>,
    later_page: Seq<char>,
    later_entries: Seq<(Seq<char>, RouteHistView)>,
    later_seconds: Seq<String>,
)
    requires
        spells_alike(spell, histograms),
        other != request.route,
        histograms.contains_key(other),
        is_page(page, histograms, spell, entries, seconds),
        is_page(
            later_page,
            recorded(histograms, request.route, request.nanos, request.micros),
            spell,
            later_entries,
            later_seconds,
        ),
    ensures
        exists|sum: String, start: int, later_start: int|
            #![trigger
                stands_at(page, route_lines(other, histograms[other], sum@), start),
                stands_at(later_page, route_lines(other, histograms[other], sum@), later_start)]
            {
                &&& stands_at(page, route_lines(other, histograms[other], sum@), start)
                &&& stands_at(later_page, route_lines(other, histograms[other], sum@), later_start)
            },
{
    let later = recorded(histograms, request.route, request.nanos, request.micros);
    law_each_route_is_rendered(page, histograms, spell, entries, seconds, other);
    law_each_route_is_rendered(later_page, later, spell, later_entries, later_seconds, other);
    let (sum, start) = choose|sum: String, start: int| #[trigger]
        stands_at(page, route_lines(other, histograms[other], sum@), start) && spelled(
            spell,
            histograms[other].sum_micros,
            sum,
        );
    let (later_sum, later_start) = choose|sum: String, start: int| #[trigger]
        stands_at(later_page, route_lines(other, later[other], sum@), start) && spelled(
            spell,
            later[other].sum_micros,
            sum,
        );
    assert(later[other] == histograms[other]);
    assert(sum@ == later_sum@);
    assert(stands_at(later_page, route_lines(other, histograms[other], sum@), later_start));
}

/// `part` stands in `page` from `start` on.
pub open spec fn stands_at(page: Seq<char>, part: Seq<char>, start: int) -> bool {
    &&& 0 <= start <= start + part.len() <= page.len()
    &&& page.subrange(start, start + part.len()) == part
}

proof fn lemma_lines_stand(
    entries: Seq<(Seq<char>, RouteHistView)>,
    seconds: Seq<String>,
    n: int,
    i: int,
) -> (start: int)
    requires
        0 <= i < n <= entries.len(),
    ensures
        stands_at(
            all_lines(entries, seconds, n),
            route_lines(entries[i].0, entries[i].1, seconds[i]@),
            start,
        ),
    decreases n,
{
    let before = all_lines(entries, seconds, n - 1);
    let whole = all_lines(entries, seconds, n);
    let own = route_lines(entries[i].0, entries[i].1, seconds[i]@);
    if i == n - 1 {
        assert(whole.subrange(before.len() as int, (before.len() + own.len()) as int) =~= own);
        before.len() as int
    } else {
        let start = lemma_lines_stand(entries, seconds, n - 1, i);
        assert(whole.subrange(start, start + own.len()) =~= own);
        start
    }
}

/// A counter holds its number as long as that fits, and begins again at zero when
/// it does not.
pub proof fn law_counters_wrap_around(value: int)
    requires
        value >= 0,
    ensures
        value <= u64::MAX ==> wrapped(value) == value,
        wrapped(value + u64::MAX + 1) == wrapped(value),
{
}

/// A running sum is nothing at first, and grows by each bucket in turn.
pub proof fn law_running_sums_add_up(buckets: Seq<u64>, n: int)
    requires
        0 <= n < buckets.len(),
    ensures
        total(buckets, 0) == 0,
        total(buckets, n + 1) == total(buckets, n) + buckets[n],
{
}

/// A route has no observations before it has one, and one observation changes one
/// bucket, the sum and the count.
pub proof fn law_one_observation(hist: RouteHistView, nanos: nat, micros: u64, bucket: int)
    requires
        hist.buckets.len() == 11,
        0 <= bucket < 11,
    ensures
        observed(hist, nanos, micros).buckets.len() == 11,
        bucket != bucket_of(nanos) ==> observed(hist, nanos, micros).buckets[bucket]
            == hist.buckets[bucket],
        bucket == bucket_of(nanos) && hist.buckets[bucket] < u64::MAX ==> observed(
            hist,
            nanos,
            micros,
        ).buckets[bucket] == hist.buckets[bucket] + 1,
        hist.sum_micros + micros <= u64::MAX ==> observed(hist, nanos, micros).sum_micros
            == hist.sum_micros + micros,
        hist.count < u64::MAX ==> observed(hist, nanos, micros).count == hist.count + 1,
        empty_hist().buckets.len() == 11,
        empty_hist().buckets[bucket] == 0,
        empty_hist().sum_micros == 0,
        empty_hist().count == 0,
{
    lemma_bucket_from(nanos, 0);
}

/// Recording a request of one route leaves the histograms of the others as they are.
pub proof fn law_record_is_of_its_route(
    histograms: Map<Seq<char>, RouteHistView>,
    request: Observation,
    other: Seq<char>,
)
    ensures
        ({
            let later = recorded(histograms, request.route, request.nanos, request.micros);
            &&& later.contains_key(request.route)
            &&& later[request.route] == observed(
                if histograms.contains_key(request.route) {
                    histograms[request.route]
                } else {
                    empty_hist()
                },
                request.nanos,
                request.micros,
            )
            &&& other != request.route ==> later.contains_key(other) == histograms.contains_key(
                other,
            )
            &&& other != request.route && histograms.contains_key(other) ==> later[other]
                == histograms[other]
        }),
{
}

} // verus!
