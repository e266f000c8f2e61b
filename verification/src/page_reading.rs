//! What the metrics page tells whoever reads it: each sample is true, and none is
//! missing.

use vstd::prelude::*;

use crate::allocator::AllocatorStats;
use crate::histogram_laws::after;
use crate::histogram_laws::law_bucket_counts_requests_within_bound;
use crate::histogram_laws::law_inf_bucket_is_count;
use crate::histogram_laws::law_only_recorded_routes;
use crate::histogram_laws::law_sum_adds_up;
use crate::histogram_laws::micros_of;
use crate::histogram_laws::requests_of;
use crate::histogram_laws::requests_within;
use crate::histogram_laws::Observation;
use crate::labels::escaped;
use crate::labels::law_label_reads_back;
use crate::labels::lemma_escaped_plain;
use crate::metrics_http::bucket_line;
use crate::metrics_http::count_line;
use crate::metrics_http::hist_of;
use crate::metrics_http::is_page;
use crate::metrics_http::route_lines;
use crate::metrics_http::spelled;
use crate::metrics_http::sum_line;
use crate::metrics_http::total;
use crate::metrics_http::wrapped;
use crate::metrics_http::RouteHistView;
use crate::metrics_http::BOUNDS_NANOS;
use crate::metrics_http::BOUND_LABELS;
use crate::metrics_page::metric;
use crate::metrics_page::LayoutCacheMetrics;
use crate::metrics_page::ResponseCacheMetrics;
use crate::page_laws::is_clean;
use crate::page_laws::joined;
use crate::page_laws::lemma_associative;
use crate::page_laws::lemma_decimal_clean;
use crate::page_laws::lemma_heads;
use crate::page_laws::lemma_joined;
use crate::page_laws::lemma_joined_first;
use crate::page_laws::lemma_kinds;
use crate::page_laws::lemma_names;
use crate::page_laws::lemma_none_joined;
use crate::page_laws::lemma_page_lines;
use crate::page_laws::lemma_route_lines;
use crate::page_laws::lemma_split_joined;
use crate::page_laws::lemma_type_line;
use crate::page_laws::metric_lines;
use crate::page_laws::metric_names;
use crate::page_laws::sample_line;
use crate::page_laws::spelled_on_one_line;
use crate::page_laws::split_lines;
use crate::page_laws::type_line;
use crate::readers::lemma_lead;
use crate::readers::read_decimal;
use crate::readers::read_labels;
use crate::readers::read_micros;
use crate::readers::read_sample;
use crate::readers::Sample;
use crate::seconds::fraction;
use crate::seconds::law_seconds_read_back;
use crate::seconds::seconds_text;
use crate::seconds::EXACT_MICROS;
use crate::text::decimal;
use crate::text::law_decimal_reads_back;
use crate::text::lemma_before_all;

verus! {

/// The bounds of the histogram as they stand in the label `le`.
pub open spec fn le_texts() -> Seq<Seq<char>> {
    seq![
        "0.005"@,
        "0.025"@,
        "0.1"@,
        "0.25"@,
        "0.5"@,
        "1"@,
        "2.5"@,
        "5"@,
        "10"@,
        "30"@,
        "+Inf"@,
    ]
}

/// How many of `requests` were of `route` and took no longer than the bound that
/// `le` stands for, in seconds.
pub open spec fn requests_up_to(
    requests: Seq<Observation>,
    route: Seq<char>,
    le: Seq<char>,
) -> nat {
    if le == "+Inf"@ {
        requests_of(requests, route)
    } else {
        requests_within(requests, route, 1000 * read_micros(le)->0)
    }
}

/// A sample of the histogram says what is true of `requests`.
pub open spec fn is_true(sample: Sample, requests: Seq<Observation>) -> bool {
    let route = sample.labels[0].1;
    &&& sample.labels.len() > 0
    &&& sample.labels[0].0 == "route"@
    &&& requests_of(requests, route) > 0
    &&& {
        ||| {
            &&& sample.name == "rari_ssr_request_duration_seconds_bucket"@
            &&& sample.labels.len() == 2
            &&& sample.labels[1].0 == "le"@
            &&& sample.labels[1].1 == "+Inf"@ || read_micros(sample.labels[1].1) is Some
            &&& read_decimal(sample.value) == Some(
                requests_up_to(requests, route, sample.labels[1].1),
            )
        }
        ||| {
            &&& sample.name == "rari_ssr_request_duration_seconds_sum"@
            &&& sample.labels.len() == 1
            &&& micros_of(requests, route) < 8_589_934_592_000_000 ==> read_micros(sample.value)
                == Some(micros_of(requests, route))
        }
        ||| {
            &&& sample.name == "rari_ssr_request_duration_seconds_count"@
            &&& sample.labels.len() == 1
            &&& read_decimal(sample.value) == Some(requests_of(requests, route))
        }
    }
}

/// Some line is a sample of this name with these labels.
pub open spec fn shows(
    lines: Seq<Seq<char>>,
    name: Seq<char>,
    labels: Seq<(Seq<char>, Seq<char>)>,
) -> bool {
    exists|j: int|
        0 <= j < lines.len() && ((#[trigger] read_sample(lines[j])) matches Some(sample)
            && sample.name == name && sample.labels == labels)
}

proof fn lemma_read_pair(key: Seq<char>, value: Seq<char>, rest: Seq<char>)
    requires
        !key.contains('='),
        rest.len() > 0,
    ensures
        read_labels(key + seq!['=', '"'] + escaped(value) + seq!['"'] + rest) == (if rest[0]
            == '}' {
            Some((seq![(key, value)], rest.skip(1)))
        } else if rest[0] == ',' {
            match read_labels(rest.skip(1)) {
                Some((more, end)) => Some((seq![(key, value)] + more, end)),
                None => None,
            }
        } else {
            None
        }),
{
    let stops = seq!['='];
    let quoted = seq!['=', '"'] + escaped(value) + seq!['"'] + rest;
    let text = key + seq!['=', '"'] + escaped(value) + seq!['"'] + rest;
    assert(text =~= key + quoted);
    assert forall|i: int| 0 <= i < key.len() implies !stops.contains(#[trigger] key[i]) by {
        assert(key.contains(key[i]));
    }
    assert(stops[0] == '=' && quoted[0] == '=' && quoted[1] == '"');
    assert(stops.contains(quoted[0]));
    lemma_lead(key, quoted, stops);
    assert(text.skip(key.len() as int) =~= quoted);
    assert(quoted.skip(2) =~= escaped(value) + seq!['"'] + rest);
    law_label_reads_back(value, rest);
}

proof fn lemma_read_labelled(name: Seq<char>, text: Seq<char>)
    requires
        is_clean(name),
    ensures
        read_sample(name + seq!['{'] + text) == (match read_labels(text) {
            Some((labels, end)) => if end.len() > 0 && end[0] == ' ' {
                Some(Sample { name, labels, value: end.skip(1) })
            } else {
                None
            },
            None => None,
        }),
{
    let stops = seq!['{', ' '];
    let line = name + seq!['{'] + text;
    let tail = seq!['{'] + text;
    assert(line =~= name + tail);
    assert forall|i: int| 0 <= i < name.len() implies !stops.contains(#[trigger] name[i]) by {
        assert(name.contains(name[i]));
    }
    assert(stops[0] == '{' && tail[0] == '{');
    assert(stops.contains(tail[0]));
    lemma_lead(name, tail, stops);
    assert(line.skip(name.len() as int) =~= tail);
    assert(tail.skip(1) =~= text);
}

/// What stands between the parts of a line, character by character.
proof fn lemma_punctuation()
    ensures
        "route=\""@ == "route"@ + seq!['=', '"'],
        "\",le=\""@ == seq!['"', ','] + "le"@ + seq!['=', '"'],
        "\"} "@ == seq!['"', '}', ' '],
        "\n"@ == seq!['\n'],
        !"route"@.contains('='),
        !"le"@.contains('='),
        "rari_ssr_request_duration_seconds_bucket"@ == metric_names()[13] + "_bucket"@,
        "rari_ssr_request_duration_seconds_sum"@ == metric_names()[13] + "_sum"@,
        "rari_ssr_request_duration_seconds_count"@ == metric_names()[13] + "_count"@,
{
    reveal_strlit("route=\"");
    reveal_strlit("route");
    reveal_strlit("\",le=\"");
    reveal_strlit("le");
    reveal_strlit("\"} ");
    reveal_strlit("\n");
    assert("route=\""@ =~= "route"@ + seq!['=', '"']);
    assert("\",le=\""@ =~= seq!['"', ','] + "le"@ + seq!['=', '"']);
    assert("\"} "@ =~= seq!['"', '}', ' ']);
    assert("\n"@ =~= seq!['\n']);
    reveal_strlit("rari_ssr_request_duration_seconds");
    reveal_strlit("_bucket");
    reveal_strlit("_sum");
    reveal_strlit("_count");
    reveal_strlit("rari_ssr_request_duration_seconds_bucket");
    reveal_strlit("rari_ssr_request_duration_seconds_sum");
    reveal_strlit("rari_ssr_request_duration_seconds_count");
    assert("rari_ssr_request_duration_seconds_bucket"@ =~= metric_names()[13] + "_bucket"@);
    assert("rari_ssr_request_duration_seconds_sum"@ =~= metric_names()[13] + "_sum"@);
    assert("rari_ssr_request_duration_seconds_count"@ =~= metric_names()[13] + "_count"@);
}

/// The names of the samples of the histogram end no name early.
proof fn lemma_sample_names()
    ensures
        is_clean("rari_ssr_request_duration_seconds_bucket"@),
        is_clean("rari_ssr_request_duration_seconds_sum"@),
        is_clean("rari_ssr_request_duration_seconds_count"@),
{
    lemma_punctuation();
    lemma_heads();
    lemma_names(13);
    let name = metric_names()[13];
    lemma_none_joined(name, "_bucket"@, ' ');
    lemma_none_joined(name, "_bucket"@, '{');
    lemma_none_joined(name, "_bucket"@, '\n');
    lemma_none_joined(name, "_sum"@, ' ');
    lemma_none_joined(name, "_sum"@, '{');
    lemma_none_joined(name, "_sum"@, '\n');
    lemma_none_joined(name, "_count"@, ' ');
    lemma_none_joined(name, "_count"@, '{');
    lemma_none_joined(name, "_count"@, '\n');
}

/// A text that is written as a label value without a change.
pub open spec fn is_plain(text: Seq<char>) -> bool {
    forall|i: int|
        0 <= i < text.len() ==> (#[trigger] text[i]) != '\\' && text[i] != '"' && text[i] != '\n'
}

proof fn lemma_read_bucket(route: Seq<char>, le: Seq<char>, count: u64)
    requires
        is_plain(le),
    ensures
        read_sample(bucket_line(route, le, count).drop_last()) == Some(
            Sample {
                name: "rari_ssr_request_duration_seconds_bucket"@,
                labels: seq![("route"@, route), ("le"@, le)],
                value: decimal(count as nat),
            },
        ),
{
    let name = "rari_ssr_request_duration_seconds_bucket"@;
    let number = decimal(count as nat);
    lemma_heads();
    lemma_punctuation();
    lemma_sample_names();
    lemma_escaped_plain(Seq::empty(), le);
    assert(Seq::<char>::empty() + le =~= le);
    assert(escaped(Seq::empty()) + le =~= le);
    let end = seq!['}', ' '] + number;
    let second = "le"@ + seq!['=', '"'] + escaped(le) + seq!['"'] + end;
    let rest = seq![','] + second;
    let text = "route"@ + seq!['=', '"'] + escaped(route) + seq!['"'] + rest;
    lemma_bucket_shape(name, "route"@, escaped(route), "le"@, le, number);
    assert(bucket_line(route, le, count).drop_last() == name + seq!['{'] + text);
    lemma_read_two("route"@, route, "le"@, le, rest, second, end);
    lemma_read_labelled(name, text);
    assert(end.skip(1) =~= seq![' '] + number);
    assert(end.skip(1).skip(1) =~= number);
}

proof fn lemma_read_two(
    key: Seq<char>,
    value: Seq<char>,
    second_key: Seq<char>,
    second_value: Seq<char>,
    rest: Seq<char>,
    second: Seq<char>,
    end: Seq<char>,
)
    requires
        !key.contains('='),
        !second_key.contains('='),
        end.len() > 0,
        end[0] == '}',
        second == second_key + seq!['=', '"'] + escaped(second_value) + seq!['"'] + end,
        rest == seq![','] + second,
    ensures
        read_labels(key + seq!['=', '"'] + escaped(value) + seq!['"'] + rest) == Some(
            (seq![(key, value), (second_key, second_value)], end.skip(1)),
        ),
{
    lemma_read_pair(second_key, second_value, end);
    lemma_read_pair(key, value, rest);
    assert(rest[0] == ',');
    assert(rest.skip(1) =~= second);
    assert(seq![(key, value)] + seq![(second_key, second_value)] =~= seq![
        (key, value),
        (second_key, second_value),
    ]);
}

/// The parts of the line of a bucket, put together in two ways.
proof fn lemma_bucket_shape(
    name: Seq<char>,
    key: Seq<char>,
    value: Seq<char>,
    second_key: Seq<char>,
    second_value: Seq<char>,
    number: Seq<char>,
)
    ensures
        (name + seq!['{'] + (key + seq!['=', '"']) + value + (seq!['"', ','] + second_key + seq![
            '=',
            '"',
        ]) + second_value + seq!['"', '}', ' '] + number + seq!['\n']).drop_last() == name + seq![
            '{',
        ] + (key + seq!['=', '"'] + value + seq!['"'] + (seq![','] + (second_key + seq!['=', '"']
            + second_value + seq!['"'] + (seq!['}', ' '] + number)))),
{
    let one = (name + seq!['{'] + (key + seq!['=', '"']) + value + (seq!['"', ','] + second_key
        + seq!['=', '"']) + second_value + seq!['"', '}', ' '] + number + seq!['\n']).drop_last();
    let other = name + seq!['{'] + (key + seq!['=', '"'] + value + seq!['"'] + (seq![','] + (
    second_key + seq!['=', '"'] + second_value + seq!['"'] + (seq!['}', ' '] + number))));
    assert(one =~= other);
}

proof fn lemma_read_of_route(name: Seq<char>, route: Seq<char>, value: Seq<char>)
    requires
        is_clean(name),
    ensures
        read_sample(
            name + seq!['{'] + "route=\""@ + escaped(route) + "\"} "@ + value,
        ) == Some(Sample { name, labels: seq![("route"@, route)], value }),
{
    lemma_punctuation();
    let end = seq!['}', ' '] + value;
    let text = "route"@ + seq!['=', '"'] + escaped(route) + seq!['"'] + end;
    let line = name + seq!['{'] + "route=\""@ + escaped(route) + "\"} "@ + value;
    assert(line =~= name + seq!['{'] + text);
    lemma_read_pair("route"@, route, end);
    assert(end[0] == '}');
    lemma_read_labelled(name, text);
    assert(end.skip(1) =~= seq![' '] + value);
    assert(end.skip(1).skip(1) =~= value);
}

proof fn lemma_read_sum(route: Seq<char>, seconds: Seq<char>)
    ensures
        read_sample(sum_line(route, seconds).drop_last()) == Some(
            Sample {
                name: "rari_ssr_request_duration_seconds_sum"@,
                labels: seq![("route"@, route)],
                value: seconds,
            },
        ),
{
    let name = "rari_ssr_request_duration_seconds_sum"@;
    lemma_heads();
    lemma_punctuation();
    lemma_sample_names();
    lemma_read_of_route(name, route, seconds);
    assert(sum_line(route, seconds).drop_last() =~= name + seq!['{'] + "route=\""@ + escaped(
        route,
    ) + "\"} "@ + seconds);
}

proof fn lemma_read_count(route: Seq<char>, count: u64)
    ensures
        read_sample(count_line(route, count).drop_last()) == Some(
            Sample {
                name: "rari_ssr_request_duration_seconds_count"@,
                labels: seq![("route"@, route)],
                value: decimal(count as nat),
            },
        ),
{
    let name = "rari_ssr_request_duration_seconds_count"@;
    lemma_heads();
    lemma_punctuation();
    lemma_sample_names();
    lemma_read_of_route(name, route, decimal(count as nat));
    assert(count_line(route, count).drop_last() =~= name + seq!['{'] + "route=\""@ + escaped(
        route,
    ) + "\"} "@ + decimal(count as nat));
}

/// What each bound is called, and what that stands for.
pub proof fn law_labels_stand_for_the_bounds(k: int)
    requires
        0 <= k < 10,
    ensures
        BOUND_LABELS@[k]@ == le_texts()[k],
        read_micros(le_texts()[k]) is Some,
        1000 * read_micros(le_texts()[k])->0 == BOUNDS_NANOS@[k],
        le_texts()[k] != "+Inf"@,
        is_plain(le_texts()[k]),
{
    reveal_strlit("0.005");
    reveal_strlit("0.025");
    reveal_strlit("0.1");
    reveal_strlit("0.25");
    reveal_strlit("0.5");
    reveal_strlit("1");
    reveal_strlit("2.5");
    reveal_strlit("5");
    reveal_strlit("10");
    reveal_strlit("30");
    reveal_strlit("+Inf");
    reveal_strlit(".");
    reveal_with_fuel(fraction, 7);
    reveal_with_fuel(decimal, 3);
    assert(seconds_text(5000) =~= "0.005"@);
    law_seconds_read_back(5000);
    assert(seconds_text(25000) =~= "0.025"@);
    law_seconds_read_back(25000);
    assert(seconds_text(100000) =~= "0.1"@);
    law_seconds_read_back(100000);
    assert(seconds_text(250000) =~= "0.25"@);
    law_seconds_read_back(250000);
    assert(seconds_text(500000) =~= "0.5"@);
    law_seconds_read_back(500000);
    assert(seconds_text(1000000) =~= "1"@);
    law_seconds_read_back(1000000);
    assert(seconds_text(2500000) =~= "2.5"@);
    law_seconds_read_back(2500000);
    assert(seconds_text(5000000) =~= "5"@);
    law_seconds_read_back(5000000);
    assert(seconds_text(10000000) =~= "10"@);
    law_seconds_read_back(10000000);
    assert(seconds_text(30000000) =~= "30"@);
    law_seconds_read_back(30000000);
    assert(le_texts()[k][0] != '+');
}

proof fn lemma_no_more_than_all(requests: Seq<Observation>, route: Seq<char>, nanos: nat)
    ensures
        requests_within(requests, route, nanos) <= requests_of(requests, route) <= requests.len(),
    decreases requests.len(),
{
    if requests.len() > 0 {
        lemma_no_more_than_all(requests.drop_last(), route, nanos);
    }
}

/// The name of the line at `k` of those of one route.
pub open spec fn name_at(k: int) -> Seq<char> {
    if k <= 10 {
        "rari_ssr_request_duration_seconds_bucket"@
    } else if k == 11 {
        "rari_ssr_request_duration_seconds_sum"@
    } else {
        "rari_ssr_request_duration_seconds_count"@
    }
}

/// The labels of the line at `k` of those of `route`.
pub open spec fn labels_at(route: Seq<char>, k: int) -> Seq<(Seq<char>, Seq<char>)> {
    if k <= 10 {
        seq![("route"@, route), ("le"@, le_texts()[k])]
    } else {
        seq![("route"@, route)]
    }
}

#[verifier::rlimit(60)]
proof fn lemma_line_is_true(
    requests: Seq<Observation>,
    route: Seq<char>,
    seconds: Seq<char>,
    k: int,
)
    requires
        requests.len() <= u64::MAX,
        after(requests).contains_key(route),
        after(requests)[route].sum_micros < EXACT_MICROS ==> seconds == seconds_text(
            after(requests)[route].sum_micros,
        ),
        0 <= k < 13,
    ensures
        read_sample(sample_line(route, after(requests)[route], seconds, k)) matches Some(sample)
            && is_true(sample, requests) && sample.name == name_at(k) && sample.labels
            == labels_at(route, k),
{
    let hist = after(requests)[route];
    assert(hist == hist_of(after(requests), route));
    law_only_recorded_routes(requests, route);
    law_inf_bucket_is_count(requests, route);
    if k < 10 {
        let count = wrapped(total(hist.buckets, k + 1));
        let nanos = BOUNDS_NANOS@[k] as nat;
        law_labels_stand_for_the_bounds(k);
        law_bucket_counts_requests_within_bound(requests, route, k);
        lemma_no_more_than_all(requests, route, nanos);
        lemma_read_bucket(route, le_texts()[k], count);
        law_decimal_reads_back(count as nat);
        assert(count == requests_within(requests, route, nanos));
    } else if k == 10 {
        lemma_no_more_than_all(requests, route, 0);
        reveal_strlit("+Inf");
        lemma_read_bucket(route, "+Inf"@, wrapped(total(hist.buckets, 11)));
        law_decimal_reads_back(hist.count as nat);
        assert(hist.count == requests_of(requests, route));
    } else if k == 11 {
        lemma_read_sum(route, seconds);
        law_sum_adds_up(requests, route);
        law_seconds_read_back(hist.sum_micros);
        if micros_of(requests, route) < EXACT_MICROS {
            assert(hist.sum_micros == micros_of(requests, route));
        }
    } else {
        lemma_no_more_than_all(requests, route, 0);
        lemma_read_count(route, hist.count);
        law_decimal_reads_back(hist.count as nat);
        assert(hist.count == requests_of(requests, route));
    }
}

/// The page tells the truth of the requests that were recorded, all of it, and
/// nothing else: behind the first line each line is a sample that is true, and each
/// route that was recorded has a sample for each bound, for the unbounded bucket,
/// for the sum and for the count. The number of a bucket is that of the requests
/// of its route that took no longer than its label says. (Fewer than 2^64 requests
/// were recorded, and no sum that is left to `spell` is spelled with a line feed.)
#[verifier::rlimit(60)]
pub proof fn law_page_tells_the_requests<F: Fn(u64) -> String>(
    requests: Seq<Observation>,
    page: Seq<char>,
    spell: F,
    entries: Seq<(Seq<char>, RouteHistView)>,
    seconds: Seq<String>,
)
    requires
        requests.len() <= u64::MAX,
        is_page(page, after(requests), spell, entries, seconds),
        spelled_on_one_line(entries, seconds),
    ensures
        requests.len() == 0 ==> page.len() == 0,
        requests.len() > 0 ==> split_lines(page).len() > 0 && split_lines(page)[0]
            == "# TYPE rari_ssr_request_duration_seconds histogram"@,
        forall|j: int|
            1 <= j < split_lines(page).len() ==> ((#[trigger] read_sample(split_lines(page)[j]))
                matches Some(sample) && is_true(sample, requests)),
        forall|route: Seq<char>, k: int|
            #![trigger requests_of(requests, route), le_texts()[k]]
            requests_of(requests, route) > 0 && 0 <= k < 11 ==> shows(
                split_lines(page),
                "rari_ssr_request_duration_seconds_bucket"@,
                seq![("route"@, route), ("le"@, le_texts()[k])],
            ),
        forall|route: Seq<char>| #[trigger]
            requests_of(requests, route) > 0 ==> shows(
                split_lines(page),
                "rari_ssr_request_duration_seconds_sum"@,
                seq![("route"@, route)],
            ) && shows(
                split_lines(page),
                "rari_ssr_request_duration_seconds_count"@,
                seq![("route"@, route)],
            ),
{
    let histograms = after(requests);
    let lines = split_lines(page);
    if entries.len() == 0 {
        assert(page.len() == 0);
        assert forall|route: Seq<char>| requests_of(requests, route) == 0 by {
            law_only_recorded_routes(requests, route);
        }
        if requests.len() > 0 {
            assert(requests_of(requests, requests.last().route) > 0);
        }
    } else {
        let samples = lemma_page_lines(page, histograms, spell, entries, seconds);
        lemma_first_line();
        if requests.len() == 0 {
            assert(histograms.contains_pair(entries[0].0, entries[0].1));
        }
        assert forall|e: int, k: int| 0 <= e < entries.len() && 0 <= k < 13 implies {
            &&& (#[trigger] read_sample(lines[1 + 13 * e + k])) matches Some(sample)
            &&& is_true(sample, requests)
            &&& sample.name == name_at(k)
            &&& sample.labels == labels_at(entries[e].0, k)
        } by {
            let j = 13 * e + k;
            assert(j / 13 == e && j % 13 == k);
            assert(lines[1 + j] == samples[j]);
            assert(histograms.contains_pair(entries[e].0, entries[e].1));
            lemma_line_is_true(requests, entries[e].0, seconds[e]@, k);
        }
        assert forall|j: int| 1 <= j < lines.len() implies ((#[trigger] read_sample(lines[j]))
            matches Some(sample) && is_true(sample, requests)) by {
            let e = (j - 1) / 13;
            let k = (j - 1) % 13;
            assert(read_sample(lines[1 + 13 * e + k]) is Some);
        }
        assert forall|route: Seq<char>, k: int|
            requests_of(requests, route) > 0 && 0 <= k < 13 implies shows(
            lines,
            #[trigger] name_at(k),
            #[trigger] labels_at(route, k),
        ) by {
            law_only_recorded_routes(requests, route);
            let e = choose|e: int| 0 <= e < entries.len() && (#[trigger] entries[e]).0 == route;
            assert(read_sample(lines[1 + 13 * e + k]) is Some);
        }
        assert forall|route: Seq<char>, k: int|
            #![trigger requests_of(requests, route), le_texts()[k]]
            requests_of(requests, route) > 0 && 0 <= k < 11 implies shows(
            lines,
            "rari_ssr_request_duration_seconds_bucket"@,
            seq![("route"@, route), ("le"@, le_texts()[k])],
        ) by {
            assert(shows(lines, name_at(k), labels_at(route, k)));
        }
        assert forall|route: Seq<char>| #[trigger] requests_of(requests, route) > 0 implies shows(
            lines,
            "rari_ssr_request_duration_seconds_sum"@,
            seq![("route"@, route)],
        ) && shows(
            lines,
            "rari_ssr_request_duration_seconds_count"@,
            seq![("route"@, route)],
        ) by {
            assert(shows(lines, name_at(11), labels_at(route, 11)));
            assert(shows(lines, name_at(12), labels_at(route, 12)));
        }
    }
}

proof fn lemma_first_line()
    ensures
        type_line(metric_names()[13], "histogram"@)
            == "# TYPE rari_ssr_request_duration_seconds histogram"@,
{
    reveal_strlit("# TYPE rari_ssr_request_duration_seconds histogram");
    reveal_strlit("# TYPE ");
    reveal_strlit("rari_ssr_request_duration_seconds");
    reveal_strlit(" ");
    reveal_strlit("histogram");
    assert(type_line(metric_names()[13], "histogram"@)
        =~= "# TYPE rari_ssr_request_duration_seconds histogram"@);
}

/// A sum of 2^33 seconds or more is on the page as the caller spelled it.
pub proof fn law_large_sums_are_left_to_the_caller<F: Fn(u64) -> String>(
    page: Seq<char>,
    histograms: Map<Seq<char>, RouteHistView>,
    spell: F,
    entries: Seq<(Seq<char>, RouteHistView)>,
    seconds: Seq<String>,
    e: int,
)
    requires
        is_page(page, histograms, spell, entries, seconds),
        spelled_on_one_line(entries, seconds),
        0 <= e < entries.len(),
        entries[e].1.sum_micros >= 8_589_934_592_000_000,
    ensures
        exists|j: int, text: String|
            0 <= j < split_lines(page).len() && #[trigger] read_sample(split_lines(page)[j])
                == Some(
                Sample {
                    name: "rari_ssr_request_duration_seconds_sum"@,
                    labels: seq![("route"@, entries[e].0)],
                    value: text@,
                },
            ) && #[trigger] call_ensures(spell, (entries[e].1.sum_micros,), text),
{
    let samples = lemma_page_lines(page, histograms, spell, entries, seconds);
    let j = 13 * e + 11;
    assert(j / 13 == e && j % 13 == 11);
    assert(split_lines(page)[1 + j] == samples[j]);
    lemma_read_sum(entries[e].0, seconds[e]@);
    assert(read_sample(split_lines(page)[1 + j]) is Some);
    assert(spelled(spell, entries[e].1.sum_micros, seconds[e]));
}

/// A metric with one sample: its name, its type, and its value where it has one.
pub struct Item {
    pub name: Seq<char>,
    pub kind: Seq<char>,
    pub value: Option<nat>,
}

/// A number that could be read or not.
pub open spec fn reading(value: Option<usize>) -> Option<nat> {
    match value {
        Some(value) => Some(value as nat),
        None => None,
    }
}

/// The metrics of the page besides the histograms.
pub open spec fn items(
    allocator: AllocatorStats,
    responses: ResponseCacheMetrics,
    layouts: LayoutCacheMetrics,
) -> Seq<Item> {
    seq![
        Item {
            name: "rari_jemalloc_allocated_bytes"@,
            kind: "gauge"@,
            value: reading(allocator.allocated),
        },
        Item {
            name: "rari_jemalloc_active_bytes"@,
            kind: "gauge"@,
            value: reading(allocator.active),
        },
        Item {
            name: "rari_jemalloc_resident_bytes"@,
            kind: "gauge"@,
            value: reading(allocator.resident),
        },
        Item {
            name: "rari_jemalloc_retained_bytes"@,
            kind: "gauge"@,
            value: reading(allocator.retained),
        },
        Item {
            name: "rari_jemalloc_mapped_bytes"@,
            kind: "gauge"@,
            value: reading(allocator.mapped),
        },
        Item {
            name: "rari_jemalloc_metadata_bytes"@,
            kind: "gauge"@,
            value: reading(allocator.metadata),
        },
        Item {
            name: "rari_response_cache_bytes"@,
            kind: "gauge"@,
            value: Some(responses.memory_usage_bytes as nat),
        },
        Item {
            name: "rari_response_cache_entries"@,
            kind: "gauge"@,
            value: Some(responses.total_entries as nat),
        },
        Item {
            name: "rari_response_cache_hits_total"@,
            kind: "counter"@,
            value: Some(responses.cache_hits as nat),
        },
        Item {
            name: "rari_response_cache_misses_total"@,
            kind: "counter"@,
            value: Some(responses.cache_misses as nat),
        },
        Item {
            name: "rari_response_cache_evictions_total"@,
            kind: "counter"@,
            value: Some(responses.evictions as nat),
        },
        Item {
            name: "rari_layout_cache_bytes"@,
            kind: "gauge"@,
            value: Some(layouts.bytes as nat),
        },
        Item {
            name: "rari_layout_cache_entries"@,
            kind: "gauge"@,
            value: Some(layouts.entries as nat),
        },
    ]
}

/// A line is a sample of `name` without labels, and its value is `value`.
pub open spec fn tells(line: Seq<char>, name: Seq<char>, value: nat) -> bool {
    read_sample(line) matches Some(sample) && sample.name == name && sample.labels.len() == 0
        && read_decimal(sample.value) == Some(value)
}

/// The lines at `j` give an item its type and its value.
pub open spec fn stands_for(lines: Seq<Seq<char>>, j: int, item: Item) -> bool {
    &&& 0 <= j < lines.len() - 1
    &&& lines[j] == "# TYPE "@ + item.name + " "@ + item.kind
    &&& item.value matches Some(value) && tells(lines[j + 1], item.name, value)
}

/// The line at `j` is one of the two of some item that has a value.
pub open spec fn is_of(lines: Seq<Seq<char>>, j: int, items: Seq<Item>) -> bool {
    exists|k: int|
        0 <= k < items.len() && (stands_for(lines, j, #[trigger] items[k]) || stands_for(
            lines,
            j - 1,
            items[k],
        ))
}

/// The lines of an item, if it has a value.
spec fn item_lines(item: Item) -> Seq<Seq<char>> {
    match item.value {
        Some(value) => metric_lines(item.name, item.kind, value),
        None => Seq::empty(),
    }
}

/// The text of an item.
spec fn item_text(item: Item) -> Seq<char> {
    match item.value {
        Some(value) => metric(item.name, item.kind, value),
        None => Seq::empty(),
    }
}

spec fn lines_of_items(items: Seq<Item>, n: int) -> Seq<Seq<char>>
    decreases n,
{
    if n <= 0 {
        Seq::empty()
    } else {
        lines_of_items(items, n - 1) + item_lines(items[n - 1])
    }
}

spec fn text_of_items(items: Seq<Item>, n: int) -> Seq<char>
    decreases n,
{
    if n <= 0 {
        Seq::empty()
    } else {
        text_of_items(items, n - 1) + item_text(items[n - 1])
    }
}

/// All that holds of the lines of items: they make up the text, none is missing
/// and none is false.
spec fn is_told(lines: Seq<Seq<char>>, items: Seq<Item>, n: int) -> bool {
    &&& joined(lines) == text_of_items(items, n)
    &&& forall|i: int| 0 <= i < lines.len() ==> !(#[trigger] lines[i]).contains('\n')
    &&& forall|k: int|
        0 <= k < n && (#[trigger] items[k]).value is Some ==> exists|j: int|
            stands_for(lines, j, items[k])
    &&& forall|j: int| 0 <= j < lines.len() ==> #[trigger] is_of(lines, j, items)
}

proof fn lemma_tells(name: Seq<char>, value: nat)
    requires
        is_clean(name),
    ensures
        tells(name + " "@ + decimal(value), name, value),
        !(name + " "@ + decimal(value)).contains('\n'),
{
    let stops = seq!['{', ' '];
    let line = name + " "@ + decimal(value);
    reveal_strlit(" ");
    let tail = seq![' '] + decimal(value);
    assert(line =~= name + tail);
    assert forall|i: int| 0 <= i < name.len() implies !stops.contains(#[trigger] name[i]) by {
        assert(name.contains(name[i]));
    }
    assert(stops[1] == ' ' && tail[0] == ' ');
    assert(stops.contains(tail[0]));
    lemma_lead(name, tail, stops);
    assert(line.skip(name.len() as int) =~= tail);
    assert(tail.skip(1) =~= decimal(value));
    law_decimal_reads_back(value);
    lemma_decimal_clean(value);
    lemma_none_joined(name, " "@, '\n');
    lemma_none_joined(name + " "@, decimal(value), '\n');
}

proof fn lemma_kept(lines: Seq<Seq<char>>, more: Seq<Seq<char>>, j: int, item: Item)
    requires
        stands_for(lines, j, item),
    ensures
        stands_for(lines + more, j, item),
{
    assert((lines + more)[j] == lines[j]);
    assert((lines + more)[j + 1] == lines[j + 1]);
}

proof fn lemma_items_told(items: Seq<Item>, n: int)
    requires
        0 <= n <= items.len(),
        forall|k: int|
            0 <= k < items.len() ==> is_clean((#[trigger] items[k]).name) && is_clean(
                items[k].kind,
            ),
    ensures
        is_told(lines_of_items(items, n), items, n),
    decreases n,
{
    let lines = lines_of_items(items, n);
    if n > 0 {
        let before = lines_of_items(items, n - 1);
        let item = items[n - 1];
        let own = item_lines(item);
        lemma_items_told(items, n - 1);
        lemma_joined(before, own);
        match item.value {
            None => {
                assert(lines =~= before);
                assert(text_of_items(items, n) =~= text_of_items(items, n - 1));
            },
            Some(value) => {
                let header = type_line(item.name, item.kind);
                let sample = item.name + " "@ + decimal(value);
                lemma_tells(item.name, value);
                lemma_type_line(item.name, item.kind);
                reveal_strlit("\n");
                assert(own.drop_last() =~= seq![header]);
                assert(own.drop_last().drop_last() =~= Seq::empty());
                reveal_with_fuel(joined, 3);
                assert(joined(own) =~= metric(item.name, item.kind, value));
                let at = before.len() as int;
                assert(lines[at] == header && lines[at + 1] == sample);
                assert(stands_for(lines, at, item));
            },
        }
        assert forall|i: int| 0 <= i < lines.len() implies !(#[trigger] lines[i]).contains(
            '\n',
        ) by {
            if i < before.len() {
                assert(lines[i] == before[i]);
            } else {
                assert(lines[i] == own[i - before.len()]);
            }
        }
        assert forall|k: int| 0 <= k < n && (#[trigger] items[k]).value is Some implies exists|
            j: int,
        | stands_for(lines, j, items[k]) by {
            if k < n - 1 {
                let j = choose|j: int| stands_for(before, j, items[k]);
                lemma_kept(before, own, j, items[k]);
            } else {
                assert(stands_for(lines, before.len() as int, items[k]));
            }
        }
        assert forall|j: int| 0 <= j < lines.len() implies #[trigger] is_of(lines, j, items) by {
            if j < before.len() {
                assert(is_of(before, j, items));
                let k = choose|k: int|
                    0 <= k < items.len() && (stands_for(before, j, #[trigger] items[k])
                        || stands_for(before, j - 1, items[k]));
                if stands_for(before, j, items[k]) {
                    lemma_kept(before, own, j, items[k]);
                } else {
                    lemma_kept(before, own, j - 1, items[k]);
                }
            } else {
                assert(items[n - 1].value is Some);
                assert(stands_for(lines, before.len() as int, items[n - 1]));
            }
        }
    }
}

#[verifier::rlimit(60)]
proof fn lemma_text_of_items(
    allocator: AllocatorStats,
    responses: ResponseCacheMetrics,
    layouts: LayoutCacheMetrics,
)
    ensures
        text_of_items(items(allocator, responses, layouts), 13) == allocator.lines()
            + responses.lines() + layouts.lines(),
{
    let all = items(allocator, responses, layouts);
    reveal_with_fuel(text_of_items, 14);
    let gauges = text_of_items(all, 6);
    assert(gauges =~= allocator.lines()) by {
        assert(Seq::<char>::empty() + item_text(all[0]) =~= item_text(all[0]));
    }
    assert(text_of_items(all, 11) =~= gauges + responses.lines()) by {
        let a = item_text(all[6]);
        let b = item_text(all[7]);
        let c = item_text(all[8]);
        let d = item_text(all[9]);
        let e = item_text(all[10]);
        lemma_associative(gauges, a, b);
        lemma_associative(gauges, a + b, c);
        lemma_associative(gauges, a + b + c, d);
        lemma_associative(gauges, a + b + c + d, e);
    }
    let caches = text_of_items(all, 11);
    lemma_associative(caches, item_text(all[11]), item_text(all[12]));
}

/// The metrics of the allocator and of the caches are on the page with their
/// values, whatever these are, and nothing else is: each that has a value has a
/// line with its type and behind it a line with its value, and each line is one of
/// these.
pub proof fn law_page_tells_the_gauges(
    allocator: AllocatorStats,
    responses: ResponseCacheMetrics,
    layouts: LayoutCacheMetrics,
)
    ensures
        ({
            let all = items(allocator, responses, layouts);
            let text = allocator.lines() + responses.lines() + layouts.lines();
            let lines = split_lines(text);
            &&& forall|k: int|
                0 <= k < all.len() && (#[trigger] all[k]).value is Some ==> exists|j: int|
                    stands_for(lines, j, all[k])
            &&& forall|j: int| 0 <= j < lines.len() ==> #[trigger] is_of(lines, j, all)
            &&& text == joined(lines)
        }),
{
    let all = items(allocator, responses, layouts);
    lemma_kinds();
    assert forall|k: int| 0 <= k < all.len() implies is_clean((#[trigger] all[k]).name) && is_clean(
        all[k].kind,
    ) by {
        lemma_names(k);
        assert(all[k].name == metric_names()[k]);
    }
    lemma_items_told(all, 13);
    lemma_text_of_items(allocator, responses, layouts);
    lemma_split_joined(lines_of_items(all, 13));
}

/// The page is the lines of the gauges, and behind them the lines of the
/// histograms.
pub proof fn law_histograms_follow_the_gauges(
    allocator: AllocatorStats,
    responses: ResponseCacheMetrics,
    layouts: LayoutCacheMetrics,
    page: Seq<char>,
)
    ensures
        split_lines(allocator.lines() + responses.lines() + layouts.lines() + page) == split_lines(
            allocator.lines() + responses.lines() + layouts.lines(),
        ) + split_lines(page),
{
    let all = items(allocator, responses, layouts);
    lemma_kinds();
    assert forall|k: int| 0 <= k < all.len() implies is_clean((#[trigger] all[k]).name) && is_clean(
        all[k].kind,
    ) by {
        lemma_names(k);
        assert(all[k].name == metric_names()[k]);
    }
    lemma_items_told(all, 13);
    lemma_text_of_items(allocator, responses, layouts);
    let lines = lines_of_items(all, 13);
    lemma_split_joined(lines);
    lemma_split_behind(lines, page);
}

proof fn lemma_split_behind(lines: Seq<Seq<char>>, page: Seq<char>)
    requires
        forall|i: int| 0 <= i < lines.len() ==> !(#[trigger] lines[i]).contains('\n'),
    ensures
        split_lines(joined(lines) + page) == lines + split_lines(page),
    decreases lines.len(),
{
    if lines.len() == 0 {
        assert(joined(lines) + page =~= page);
        assert(lines + split_lines(page) =~= split_lines(page));
    } else {
        let head = lines[0];
        let rest = lines.drop_first();
        assert forall|i: int| 0 <= i < rest.len() implies !(#[trigger] rest[i]).contains(
            '\n',
        ) by {
            assert(rest[i] == lines[i + 1]);
        }
        lemma_split_behind(rest, page);
        lemma_joined_first(head, rest);
        assert(seq![head] + rest =~= lines);
        let text = joined(lines) + page;
        let tail = joined(rest) + page;
        assert(text =~= head + seq!['\n'] + tail);
        lemma_before_all(head, '\n', tail);
        assert(text.skip(head.len() as int + 1) =~= tail);
        assert(seq![head] + (rest + split_lines(page)) =~= lines + split_lines(page));
    }
}

/// The lines of one route read back as its histogram, whatever that is: the running
/// sum up to each bound and over all buckets, the sum of the durations as it was
/// spelled, and the count.
pub proof fn law_route_reads_back(
    route: Seq<char>,
    hist: RouteHistView,
    seconds: Seq<char>,
    k: int,
)
    requires
        hist.buckets.len() == 11,
        !seconds.contains('\n'),
        0 <= k <= 10,
    ensures
        ({
            let lines = split_lines(route_lines(route, hist, seconds));
            &&& lines.len() == 13
            &&& read_sample(lines[k]) matches Some(sample) && sample.name
                == "rari_ssr_request_duration_seconds_bucket"@ && sample.labels == seq![
                ("route"@, route),
                ("le"@, le_texts()[k]),
            ] && read_decimal(sample.value) == Some(wrapped(total(hist.buckets, k + 1)) as nat)
            &&& read_sample(lines[11]) == Some(
                Sample {
                    name: "rari_ssr_request_duration_seconds_sum"@,
                    labels: seq![("route"@, route)],
                    value: seconds,
                },
            )
            &&& read_sample(lines[12]) matches Some(sample) && sample.name
                == "rari_ssr_request_duration_seconds_count"@ && sample.labels == seq![
                ("route"@, route),
            ] && read_decimal(sample.value) == Some(hist.count as nat)
            &&& route_lines(route, hist, seconds) == joined(lines)
        }),
{
    let samples = lemma_route_lines(route, hist, seconds);
    let count = wrapped(total(hist.buckets, k + 1));
    lemma_read_sum(route, seconds);
    lemma_read_count(route, hist.count);
    law_decimal_reads_back(hist.count as nat);
    law_decimal_reads_back(count as nat);
    assert(samples[k] == sample_line(route, hist, seconds, k));
    assert(samples[11] == sample_line(route, hist, seconds, 11));
    assert(samples[12] == sample_line(route, hist, seconds, 12));
    if k < 10 {
        law_labels_stand_for_the_bounds(k);
    } else {
        reveal_strlit("+Inf");
    }
    lemma_read_bucket(route, le_texts()[k], count);
}

/// The items of the first `n` that have a value, in their order.
pub open spec fn with_values(items: Seq<Item>, n: int) -> Seq<Item>
    decreases n,
{
    if n <= 0 {
        Seq::empty()
    } else if items[n - 1].value is Some {
        with_values(items, n - 1).push(items[n - 1])
    } else {
        with_values(items, n - 1)
    }
}

proof fn lemma_items_in_order(items: Seq<Item>, n: int)
    requires
        0 <= n <= items.len(),
        forall|k: int|
            0 <= k < items.len() ==> is_clean((#[trigger] items[k]).name) && is_clean(
                items[k].kind,
            ),
    ensures
        lines_of_items(items, n).len() == 2 * with_values(items, n).len(),
        forall|i: int|
            0 <= i < with_values(items, n).len() ==> stands_for(
                lines_of_items(items, n),
                2 * i,
                #[trigger] with_values(items, n)[i],
            ),
    decreases n,
{
    if n > 0 {
        let before = lines_of_items(items, n - 1);
        let lines = lines_of_items(items, n);
        let item = items[n - 1];
        let own = item_lines(item);
        lemma_items_in_order(items, n - 1);
        match item.value {
            None => {
                assert(lines =~= before);
            },
            Some(value) => {
                lemma_tells(item.name, value);
                assert(lines[before.len() as int] == type_line(item.name, item.kind));
                assert(lines[before.len() as int + 1] == item.name + " "@ + decimal(value));
                assert forall|i: int| 0 <= i < with_values(items, n).len() implies stands_for(
                    lines,
                    2 * i,
                    #[trigger] with_values(items, n)[i],
                ) by {
                    if i < with_values(items, n - 1).len() {
                        assert(with_values(items, n)[i] == with_values(items, n - 1)[i]);
                        lemma_kept(before, own, 2 * i, with_values(items, n - 1)[i]);
                    }
                }
            },
        }
    }
}

/// The metrics of the allocator and of the caches stand on the page in their order,
/// each once.
pub proof fn law_gauges_stand_in_order(
    allocator: AllocatorStats,
    responses: ResponseCacheMetrics,
    layouts: LayoutCacheMetrics,
)
    ensures
        ({
            let shown = with_values(items(allocator, responses, layouts), 13);
            let lines = split_lines(allocator.lines() + responses.lines() + layouts.lines());
            &&& lines.len() == 2 * shown.len()
            &&& forall|i: int|
                0 <= i < shown.len() ==> stands_for(lines, 2 * i, #[trigger] shown[i])
        }),
{
    let all = items(allocator, responses, layouts);
    lemma_kinds();
    assert forall|k: int| 0 <= k < all.len() implies is_clean((#[trigger] all[k]).name) && is_clean(
        all[k].kind,
    ) by {
        lemma_names(k);
        assert(all[k].name == metric_names()[k]);
    }
    lemma_items_told(all, 13);
    lemma_items_in_order(all, 13);
    lemma_text_of_items(allocator, responses, layouts);
    lemma_split_joined(lines_of_items(all, 13));
}

} // verus!
