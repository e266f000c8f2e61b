//! What holds of the lines of every metrics page.

use vstd::prelude::*;

use crate::allocator::AllocatorStats;
use crate::labels::escaped;
use crate::labels::law_escaped_stays_between_quotes;
use crate::listing::lists;
use crate::metrics_http::all_lines;
use crate::metrics_http::bucket_line;
use crate::metrics_http::bucket_lines;
use crate::metrics_http::count_line;
use crate::metrics_http::is_page;
use crate::metrics_http::route_lines;
use crate::metrics_http::sum_line;
use crate::metrics_http::total;
use crate::metrics_http::wrapped;
use crate::metrics_http::RouteHistView;
use crate::metrics_http::BOUND_LABELS;
use crate::metrics_page::metric;
use crate::metrics_page::optional_gauge;
use crate::metrics_page::LayoutCacheMetrics;
use crate::metrics_page::ResponseCacheMetrics;
use crate::seconds::fraction;
use crate::seconds::EXACT_MICROS;
use crate::text::before;
use crate::text::decimal;
use crate::text::digit_char;
use crate::text::lemma_before_all;
use crate::text::lemma_before_joined;

verus! {

/// The lines of a text, without the line feeds that end them.
pub open spec fn split_lines(text: Seq<char>) -> Seq<Seq<char>>
    decreases text.len(),
{
    let line = before(text, '\n');
    if text.len() == 0 {
        Seq::empty()
    } else if line.len() >= text.len() {
        seq![text]
    } else {
        seq![line] + split_lines(text.skip(line.len() as int + 1))
    }
}

/// The metric whose type a line gives, if it gives one.
pub open spec fn type_of(line: Seq<char>) -> Option<Seq<char>> {
    if "# TYPE "@.is_prefix_of(line) {
        Some(before(line.skip("# TYPE "@.len() as int), ' '))
    } else {
        None
    }
}

/// The name at the head of a line with a sample.
pub open spec fn sample_name(line: Seq<char>) -> Seq<char> {
    before(before(line, ' '), '{')
}

/// A line with a sample of the metric `name`. A histogram has samples of three
/// names.
pub open spec fn is_sample_of(line: Seq<char>, name: Seq<char>) -> bool {
    ||| sample_name(line) == name
    ||| sample_name(line) == name + "_bucket"@
    ||| sample_name(line) == name + "_sum"@
    ||| sample_name(line) == name + "_count"@
}

/// No metric is given its type twice.
pub open spec fn typed_once(lines: Seq<Seq<char>>) -> bool {
    forall|i: int, j: int|
        0 <= i < j < lines.len() && type_of(#[trigger] lines[i]) is Some && type_of(
            #[trigger] lines[j],
        ) is Some ==> type_of(lines[i]) != type_of(lines[j])
}

/// The line at `i` gives the type of the metric that the one at `j` is a sample
/// of.
pub open spec fn types(lines: Seq<Seq<char>>, i: int, j: int) -> bool {
    type_of(lines[i]) matches Some(name) && is_sample_of(lines[j], name)
}

/// Each line gives a type, or is a sample of a metric that was given one before.
pub open spec fn typed_before(lines: Seq<Seq<char>>) -> bool {
    forall|j: int|
        0 <= j < lines.len() && type_of(#[trigger] lines[j]) is None ==> exists|i: int|
            0 <= i < j && #[trigger] types(lines, i, j)
}

/// The names of all metrics.
pub open spec fn metric_names() -> Seq<Seq<char>> {
    seq![
        "rari_jemalloc_allocated_bytes"@,
        "rari_jemalloc_active_bytes"@,
        "rari_jemalloc_resident_bytes"@,
        "rari_jemalloc_retained_bytes"@,
        "rari_jemalloc_mapped_bytes"@,
        "rari_jemalloc_metadata_bytes"@,
        "rari_response_cache_bytes"@,
        "rari_response_cache_entries"@,
        "rari_response_cache_hits_total"@,
        "rari_response_cache_misses_total"@,
        "rari_response_cache_evictions_total"@,
        "rari_layout_cache_bytes"@,
        "rari_layout_cache_entries"@,
        "rari_ssr_request_duration_seconds"@,
    ]
}

/// Lines as one text, each ended by a line feed.
pub open spec fn joined(lines: Seq<Seq<char>>) -> Seq<char>
    decreases lines.len(),
{
    if lines.len() == 0 {
        Seq::empty()
    } else {
        joined(lines.drop_last()) + lines.last() + seq!['\n']
    }
}

/// `lines` are lines of a page on which no metrics but the first `n` stand.
spec fn tidy(lines: Seq<Seq<char>>, n: int) -> bool {
    &&& typed_once(lines)
    &&& typed_before(lines)
    &&& forall|i: int| 0 <= i < lines.len() ==> !(#[trigger] lines[i]).contains('\n')
    &&& forall|i: int|
        0 <= i < lines.len() && type_of(#[trigger] lines[i]) is Some ==> exists|k: int|
            0 <= k < n && #[trigger] metric_names()[k] == type_of(lines[i])->0
}

pub(crate) proof fn lemma_joined_first(line: Seq<char>, lines: Seq<Seq<char>>)
    ensures
        joined(seq![line] + lines) == line + seq!['\n'] + joined(lines),
    decreases lines.len(),
{
    let whole = seq![line] + lines;
    if lines.len() == 0 {
        reveal_with_fuel(joined, 2);
        assert(whole =~= seq![line]);
        assert(whole.drop_last() =~= Seq::empty());
        assert(joined(whole) =~= line + seq!['\n'] + joined(lines));
    } else {
        lemma_joined_first(line, lines.drop_last());
        assert(whole.drop_last() =~= seq![line] + lines.drop_last());
        assert(joined(whole) =~= line + seq!['\n'] + joined(lines));
    }
}

pub(crate) proof fn lemma_split_joined(lines: Seq<Seq<char>>)
    requires
        forall|i: int| 0 <= i < lines.len() ==> !(#[trigger] lines[i]).contains('\n'),
    ensures
        split_lines(joined(lines)) == lines,
    decreases lines.len(),
{
    if lines.len() > 0 {
        let rest = lines.drop_first();
        assert forall|i: int| 0 <= i < rest.len() implies !(#[trigger] rest[i]).contains(
            '\n',
        ) by {
            assert(rest[i] == lines[i + 1]);
        }
        lemma_split_joined(rest);
        lemma_joined_first(lines[0], rest);
        assert(seq![lines[0]] + rest =~= lines);
        let text = joined(lines);
        lemma_before_all(lines[0], '\n', joined(rest));
        assert(text.skip(lines[0].len() as int + 1) =~= joined(rest));
    }
}

pub(crate) proof fn lemma_joined(one: Seq<Seq<char>>, other: Seq<Seq<char>>)
    ensures
        joined(one + other) == joined(one) + joined(other),
    decreases other.len(),
{
    let whole = one + other;
    if other.len() == 0 {
        assert(whole =~= one);
        assert(joined(one) + joined(other) =~= joined(one));
    } else {
        lemma_joined(one, other.drop_last());
        assert(whole.drop_last() =~= one + other.drop_last());
        assert(joined(whole) =~= joined(one) + joined(other));
    }
}

/// None of the characters that end a name or a line.
pub open spec fn is_clean(text: Seq<char>) -> bool {
    !text.contains(' ') && !text.contains('{') && !text.contains('\n')
}

/// The first `n` characters end no name and no line.
pub open spec fn is_clean_to(text: Seq<char>, n: int) -> bool
    decreases n,
{
    n <= 0 || (text[n - 1] != ' ' && text[n - 1] != '{' && text[n - 1] != '\n' && is_clean_to(
        text,
        n - 1,
    ))
}

proof fn lemma_clean_to(text: Seq<char>, n: int)
    requires
        is_clean_to(text, n),
        n <= text.len(),
    ensures
        forall|i: int|
            0 <= i < n ==> (#[trigger] text[i]) != ' ' && text[i] != '{' && text[i] != '\n',
    decreases n,
{
    if n > 0 {
        lemma_clean_to(text, n - 1);
    }
}

pub(crate) proof fn lemma_clean(text: Seq<char>)
    requires
        is_clean_to(text, text.len() as int),
    ensures
        is_clean(text),
{
    lemma_clean_to(text, text.len() as int);
}

/// What tells the names apart: their length and one of their characters.
pub open spec fn key(name: Seq<char>) -> (nat, char) {
    (name.len(), name[19])
}

/// What tells the names apart, for each of them.
pub open spec fn keys() -> Seq<(nat, char)> {
    seq![
        (29nat, 'a'),
        (26nat, 'e'),
        (28nat, 'e'),
        (28nat, 'n'),
        (26nat, 'd'),
        (28nat, 'a'),
        (25nat, '_'),
        (27nat, '_'),
        (30nat, '_'),
        (32nat, '_'),
        (35nat, '_'),
        (23nat, 'y'),
        (25nat, 'n'),
        (33nat, 'r'),
    ]
}

pub(crate) proof fn lemma_names(k: int)
    requires
        0 <= k < metric_names().len(),
    ensures
        is_clean(metric_names()[k]),
        metric_names()[k].len() > 0,
        metric_names()[k][0] == 'r',
        key(metric_names()[k]) == keys()[k],
{
    let name = metric_names()[k];
    reveal_with_fuel(is_clean_to, 36);
    if k == 0 {
        reveal_strlit("rari_jemalloc_allocated_bytes");
    } else if k == 1 {
        reveal_strlit("rari_jemalloc_active_bytes");
    } else if k == 2 {
        reveal_strlit("rari_jemalloc_resident_bytes");
    } else if k == 3 {
        reveal_strlit("rari_jemalloc_retained_bytes");
    } else if k == 4 {
        reveal_strlit("rari_jemalloc_mapped_bytes");
    } else if k == 5 {
        reveal_strlit("rari_jemalloc_metadata_bytes");
    } else if k == 6 {
        reveal_strlit("rari_response_cache_bytes");
    } else if k == 7 {
        reveal_strlit("rari_response_cache_entries");
    } else if k == 8 {
        reveal_strlit("rari_response_cache_hits_total");
    } else if k == 9 {
        reveal_strlit("rari_response_cache_misses_total");
    } else if k == 10 {
        reveal_strlit("rari_response_cache_evictions_total");
    } else if k == 11 {
        reveal_strlit("rari_layout_cache_bytes");
    } else if k == 12 {
        reveal_strlit("rari_layout_cache_entries");
    } else {
        reveal_strlit("rari_ssr_request_duration_seconds");
    }
    lemma_clean(name);
}

proof fn lemma_names_differ(k: int, j: int)
    requires
        0 <= k < j < metric_names().len(),
    ensures
        metric_names()[k] != metric_names()[j],
{
    lemma_names(k);
    lemma_names(j);
}

pub(crate) proof fn lemma_none_joined(one: Seq<char>, other: Seq<char>, c: char)
    ensures
        (one + other).contains(c) <==> one.contains(c) || other.contains(c),
{
    let whole = one + other;
    if whole.contains(c) {
        let i = choose|i: int| 0 <= i < whole.len() && whole[i] == c;
        if i < one.len() {
            assert(one[i] == c);
        } else {
            assert(other[i - one.len()] == c);
        }
    }
    if one.contains(c) {
        let i = choose|i: int| 0 <= i < one.len() && one[i] == c;
        assert(whole[i] == c);
    }
    if other.contains(c) {
        let i = choose|i: int| 0 <= i < other.len() && other[i] == c;
        assert(whole[i + one.len()] == c);
    }
}

pub(crate) proof fn lemma_decimal_clean(value: nat)
    ensures
        is_clean(decimal(value)),
    decreases value,
{
    if value >= 10 {
        lemma_decimal_clean(value / 10);
        let head = decimal(value / 10);
        let digit = decimal(value).last();
        assert(decimal(value) =~= head + seq![digit]);
        lemma_none_joined(head, seq![digit], ' ');
        lemma_none_joined(head, seq![digit], '{');
        lemma_none_joined(head, seq![digit], '\n');
    }
}

/// The line that gives the metric `name` its type.
pub open spec fn type_line(name: Seq<char>, kind: Seq<char>) -> Seq<char> {
    "# TYPE "@ + name + " "@ + kind
}

pub(crate) proof fn lemma_type_line(name: Seq<char>, kind: Seq<char>)
    requires
        is_clean(name),
        is_clean(kind),
    ensures
        type_of(type_line(name, kind)) == Some(name),
        !type_line(name, kind).contains('\n'),
{
    reveal_strlit("# TYPE ");
    reveal_strlit(" ");
    let head = "# TYPE "@;
    let line = type_line(name, kind);
    assert(line.take(7) =~= head);
    assert(line.skip(7) =~= name + seq![' '] + kind);
    lemma_before_all(name, ' ', kind);
    lemma_none_joined(head, name, '\n');
    lemma_none_joined(head + name, " "@, '\n');
    lemma_none_joined(head + name + " "@, kind, '\n');
}

/// A metric whose name was not yet given a type can be appended to a page.
proof fn lemma_append(
    lines: Seq<Seq<char>>,
    n: int,
    kind: Seq<char>,
    samples: Seq<Seq<char>>,
)
    requires
        tidy(lines, n),
        0 <= n < metric_names().len(),
        is_clean(kind),
        forall|i: int|
            0 <= i < samples.len() ==> !(#[trigger] samples[i]).contains('\n') && type_of(
                samples[i],
            ) is None && is_sample_of(samples[i], metric_names()[n]),
    ensures
        tidy(lines + (seq![type_line(metric_names()[n], kind)] + samples), n + 1),
{
    let name = metric_names()[n];
    let own = seq![type_line(name, kind)] + samples;
    let whole = lines + own;
    lemma_names(n);
    lemma_type_line(name, kind);
    assert(whole[lines.len() as int] == type_line(name, kind));
    assert forall|i: int| 0 <= i < whole.len() implies {
        &&& !(#[trigger] whole[i]).contains('\n')
        &&& i < lines.len() ==> whole[i] == lines[i]
        &&& i > lines.len() ==> type_of(whole[i]) is None && is_sample_of(whole[i], name)
        &&& type_of(whole[i]) is Some ==> exists|k: int|
            0 <= k < n + 1 && #[trigger] metric_names()[k] == type_of(whole[i])->0
    } by {
        if i < lines.len() {
            assert(whole[i] == lines[i]);
        } else if i == lines.len() {
            assert(metric_names()[n] == type_of(whole[i])->0);
        } else {
            assert(whole[i] == samples[i - lines.len() - 1]);
        }
    }
    assert(typed_once(whole)) by {
        assert forall|i: int, j: int|
            0 <= i < j < whole.len() && type_of(#[trigger] whole[i]) is Some && type_of(
                #[trigger] whole[j],
            ) is Some implies type_of(whole[i]) != type_of(whole[j]) by {
            if j < lines.len() {
                assert(whole[i] == lines[i] && whole[j] == lines[j]);
            } else {
                assert(j == lines.len());
                assert(type_of(lines[i]) is Some);
                let k = choose|k: int|
                    0 <= k < n && #[trigger] metric_names()[k] == type_of(lines[i])->0;
                lemma_names_differ(k, n);
            }
        }
    }
    assert(typed_before(whole)) by {
        assert forall|j: int| 0 <= j < whole.len() && type_of(#[trigger] whole[j]) is None implies
            exists|i: int| 0 <= i < j && #[trigger] types(whole, i, j) by {
            if j < lines.len() {
                assert(type_of(lines[j]) is None);
                let i = choose|i: int| 0 <= i < j && #[trigger] types(lines, i, j);
                assert(whole[i] == lines[i]);
                assert(types(whole, i, j));
            } else {
                assert(j > lines.len());
                assert(types(whole, lines.len() as int, j));
            }
        }
    }
}

/// The lines of a metric with one sample.
pub open spec fn metric_lines(name: Seq<char>, kind: Seq<char>, value: nat) -> Seq<Seq<char>> {
    seq![type_line(name, kind)] + seq![name + " "@ + decimal(value)]
}

proof fn lemma_metric(lines: Seq<Seq<char>>, n: int, kind: Seq<char>, value: nat)
    requires
        tidy(lines, n),
        0 <= n < metric_names().len(),
        is_clean(kind),
    ensures
        tidy(lines + metric_lines(metric_names()[n], kind, value), n + 1),
        joined(lines + metric_lines(metric_names()[n], kind, value)) == joined(lines) + metric(
            metric_names()[n],
            kind,
            value,
        ),
{
    let name = metric_names()[n];
    let sample = name + " "@ + decimal(value);
    let own = metric_lines(name, kind, value);
    reveal_strlit(" ");
    reveal_strlit("\n");
    reveal_strlit("# TYPE ");
    lemma_names(n);
    lemma_decimal_clean(value);
    lemma_none_joined(name, " "@, '\n');
    lemma_none_joined(name + " "@, decimal(value), '\n');
    assert(sample =~= name + seq![' '] + decimal(value));
    lemma_before_all(name, ' ', decimal(value));
    lemma_before_all(name, '{', Seq::empty());
    assert(sample[0] == 'r');
    assert(type_of(sample) is None) by {
        assert("# TYPE "@[0] == '#');
    }
    lemma_append(lines, n, kind, seq![sample]);
    lemma_joined(lines, own);
    assert(own.drop_last() =~= seq![type_line(name, kind)]);
    assert(own.drop_last().drop_last() =~= Seq::empty());
    reveal_with_fuel(joined, 3);
    assert(joined(own) =~= metric(name, kind, value));
}

pub(crate) proof fn lemma_associative(one: Seq<char>, two: Seq<char>, three: Seq<char>)
    ensures
        one + two + three == one + (two + three),
{
    assert(one + two + three =~= one + (two + three));
}

/// A gauge that is there or not.
spec fn gauge_lines(name: Seq<char>, value: Option<usize>) -> Seq<Seq<char>> {
    match value {
        Some(value) => metric_lines(name, "gauge"@, value as nat),
        None => Seq::empty(),
    }
}

proof fn lemma_gauge(lines: Seq<Seq<char>>, n: int, value: Option<usize>)
    requires
        tidy(lines, n),
        0 <= n < metric_names().len(),
    ensures
        tidy(lines + gauge_lines(metric_names()[n], value), n + 1),
        joined(lines + gauge_lines(metric_names()[n], value)) == joined(lines) + optional_gauge(
            metric_names()[n],
            value,
        ),
{
    lemma_kinds();
    match value {
        Some(value) => {
            lemma_metric(lines, n, "gauge"@, value as nat);
        },
        None => {
            assert(lines + gauge_lines(metric_names()[n], value) =~= lines);
            assert(joined(lines) + Seq::<char>::empty() =~= joined(lines));
            assert forall|i: int|
                0 <= i < lines.len() && type_of(#[trigger] lines[i]) is Some implies exists|k: int|
                0 <= k < n + 1 && #[trigger] metric_names()[k] == type_of(lines[i])->0 by {
                let k = choose|k: int|
                    0 <= k < n && #[trigger] metric_names()[k] == type_of(lines[i])->0;
                assert(metric_names()[k] == type_of(lines[i])->0);
            }
        },
    }
}

pub(crate) proof fn lemma_kinds()
    ensures
        is_clean("gauge"@),
        is_clean("counter"@),
        is_clean("histogram"@),
{
    reveal_strlit("gauge");
    reveal_strlit("counter");
    reveal_strlit("histogram");
    reveal_with_fuel(is_clean_to, 10);
    lemma_clean("gauge"@);
    lemma_clean("counter"@);
    lemma_clean("histogram"@);
}

/// A line with a sample of the histogram.
spec fn is_sample(line: Seq<char>) -> bool {
    &&& !line.contains('\n')
    &&& type_of(line) is None
    &&& is_sample_of(line, metric_names()[13])
}

/// `line` is a sample of the histogram and the line feed that ends it.
spec fn ends_sample(line: Seq<char>) -> bool {
    &&& line.len() > 0
    &&& line == line.drop_last() + seq!['\n']
    &&& is_sample(line.drop_last())
}

proof fn lemma_sample(suffix: Seq<char>, rest: Seq<char>)
    requires
        is_clean(suffix),
        suffix == "_bucket"@ || suffix == "_sum"@ || suffix == "_count"@,
        !rest.contains('\n'),
    ensures
        ends_sample(metric_names()[13] + suffix + seq!['{'] + rest + "\n"@),
{
    reveal_strlit("\n");
    reveal_strlit("# TYPE ");
    let name = metric_names()[13];
    let head = name + suffix + seq!['{'];
    let line = head + rest;
    lemma_names(13);
    assert((line + "\n"@).drop_last() =~= line);
    assert(line + "\n"@ =~= line + seq!['\n']);
    lemma_none_joined(name, suffix, '\n');
    lemma_none_joined(name, suffix, ' ');
    lemma_none_joined(name, suffix, '{');
    lemma_none_joined(name + suffix, seq!['{'], '\n');
    lemma_none_joined(name + suffix, seq!['{'], ' ');
    lemma_none_joined(head, rest, '\n');
    lemma_before_joined(head, rest, ' ');
    lemma_before_all(name + suffix, '{', before(rest, ' '));
    assert(line[0] == 'r');
    assert("# TYPE "@[0] == '#');
}

proof fn lemma_bucket_sample(route: Seq<char>, le: Seq<char>, count: u64)
    requires
        !le.contains('\n'),
    ensures
        ends_sample(bucket_line(route, le, count)),
{
    let head = "rari_ssr_request_duration_seconds_bucket{route=\""@;
    let quote = "\",le=\""@;
    let end = "\"} "@;
    let number = decimal(count as nat);
    lemma_heads();
    lemma_decimal_clean(count as nat);
    law_escaped_stays_between_quotes(route);
    let rest = "route=\""@ + escaped(route) + quote + le + end + number;
    lemma_none_joined("route=\""@, escaped(route), '\n');
    lemma_none_joined("route=\""@ + escaped(route), quote, '\n');
    lemma_none_joined("route=\""@ + escaped(route) + quote, le, '\n');
    lemma_none_joined("route=\""@ + escaped(route) + quote + le, end, '\n');
    lemma_none_joined("route=\""@ + escaped(route) + quote + le + end, number, '\n');
    lemma_sample("_bucket"@, rest);
    assert(bucket_line(route, le, count) =~= metric_names()[13] + "_bucket"@ + seq!['{'] + rest
        + "\n"@);
}

proof fn lemma_sum_sample(route: Seq<char>, seconds: Seq<char>)
    requires
        !seconds.contains('\n'),
    ensures
        ends_sample(sum_line(route, seconds)),
{
    let end = "\"} "@;
    lemma_heads();
    law_escaped_stays_between_quotes(route);
    let rest = "route=\""@ + escaped(route) + end + seconds;
    lemma_none_joined("route=\""@, escaped(route), '\n');
    lemma_none_joined("route=\""@ + escaped(route), end, '\n');
    lemma_none_joined("route=\""@ + escaped(route) + end, seconds, '\n');
    lemma_sample("_sum"@, rest);
    assert(sum_line(route, seconds) =~= metric_names()[13] + "_sum"@ + seq!['{'] + rest + "\n"@);
}

proof fn lemma_count_sample(route: Seq<char>, count: u64)
    ensures
        ends_sample(count_line(route, count)),
{
    let end = "\"} "@;
    let number = decimal(count as nat);
    lemma_heads();
    lemma_decimal_clean(count as nat);
    law_escaped_stays_between_quotes(route);
    let rest = "route=\""@ + escaped(route) + end + number;
    lemma_none_joined("route=\""@, escaped(route), '\n');
    lemma_none_joined("route=\""@ + escaped(route), end, '\n');
    lemma_none_joined("route=\""@ + escaped(route) + end, number, '\n');
    lemma_sample("_count"@, rest);
    assert(count_line(route, count) =~= metric_names()[13] + "_count"@ + seq!['{'] + rest
        + "\n"@);
}

/// What the lines of the histogram begin with, and what stands between.
pub(crate) proof fn lemma_heads()
    ensures
        "rari_ssr_request_duration_seconds_bucket{route=\""@ == metric_names()[13] + "_bucket"@
            + seq!['{'] + "route=\""@,
        "rari_ssr_request_duration_seconds_sum{route=\""@ == metric_names()[13] + "_sum"@
            + seq!['{'] + "route=\""@,
        "rari_ssr_request_duration_seconds_count{route=\""@ == metric_names()[13] + "_count"@
            + seq!['{'] + "route=\""@,
        is_clean("_bucket"@),
        is_clean("_sum"@),
        is_clean("_count"@),
        !"route=\""@.contains('\n'),
        !"\",le=\""@.contains('\n'),
        !"\"} "@.contains('\n'),
{
    reveal_strlit("rari_ssr_request_duration_seconds");
    reveal_strlit("_bucket");
    reveal_strlit("_sum");
    reveal_strlit("_count");
    reveal_strlit("route=\"");
    reveal_strlit("rari_ssr_request_duration_seconds_bucket{route=\"");
    assert("rari_ssr_request_duration_seconds_bucket{route=\""@ =~= metric_names()[13]
        + "_bucket"@ + seq!['{'] + "route=\""@);
    reveal_strlit("rari_ssr_request_duration_seconds_sum{route=\"");
    assert("rari_ssr_request_duration_seconds_sum{route=\""@ =~= metric_names()[13] + "_sum"@
        + seq!['{'] + "route=\""@);
    reveal_strlit("rari_ssr_request_duration_seconds_count{route=\"");
    assert("rari_ssr_request_duration_seconds_count{route=\""@ =~= metric_names()[13] + "_count"@
        + seq!['{'] + "route=\""@);
    reveal_strlit("\",le=\"");
    reveal_strlit("\"} ");
    reveal_with_fuel(is_clean_to, 8);
    lemma_clean("_bucket"@);
    lemma_clean("_sum"@);
    lemma_clean("_count"@);
    lemma_clean("route=\""@);
    lemma_clean("\",le=\""@);
}

pub(crate) proof fn lemma_labels(i: int)
    requires
        0 <= i < 10,
    ensures
        !BOUND_LABELS@[i]@.contains('\n'),
{
    reveal_strlit("0.005");
    reveal_strlit("0.025");
    reveal_strlit("0.1");
    reveal_strlit("0.25");
    reveal_strlit("0.5");
    reveal_strlit("1");
    reveal_strlit("2.5");
    reveal_strlit("5");
    reveal_strlit("10");
    reveal_strlit("30");
    reveal_with_fuel(is_clean_to, 6);
    lemma_clean(BOUND_LABELS@[i]@);
}

/// The line at `k` of those of one route, without the line feed that ends it.
pub open spec fn sample_line(
    route: Seq<char>,
    hist: RouteHistView,
    seconds: Seq<char>,
    k: int,
) -> Seq<char> {
    (if k < 10 {
        bucket_line(route, BOUND_LABELS@[k]@, wrapped(total(hist.buckets, k + 1)))
    } else if k == 10 {
        bucket_line(route, "+Inf"@, wrapped(total(hist.buckets, 11)))
    } else if k == 11 {
        sum_line(route, seconds)
    } else {
        count_line(route, hist.count)
    }).drop_last()
}

/// The text is made of samples of the histogram, each ended by a line feed.
spec fn is_samples(text: Seq<char>, samples: Seq<Seq<char>>) -> bool {
    &&& text == joined(samples)
    &&& forall|i: int| 0 <= i < samples.len() ==> is_sample(#[trigger] samples[i])
}

proof fn lemma_more_samples(text: Seq<char>, samples: Seq<Seq<char>>, line: Seq<char>)
    requires
        is_samples(text, samples),
        ends_sample(line),
    ensures
        is_samples(text + line, samples.push(line.drop_last())),
{
    let more = samples.push(line.drop_last());
    assert(more.drop_last() =~= samples);
    assert(joined(more) =~= text + line);
}

proof fn lemma_bucket_samples(route: Seq<char>, buckets: Seq<u64>, n: int) -> (samples: Seq<
    Seq<char>,
>)
    requires
        0 <= n <= 10,
    ensures
        is_samples(bucket_lines(route, buckets, n), samples),
        samples.len() == n,
        forall|k: int|
            0 <= k < n ==> #[trigger] samples[k] == bucket_line(
                route,
                BOUND_LABELS@[k]@,
                wrapped(total(buckets, k + 1)),
            ).drop_last(),
    decreases n,
{
    if n == 0 {
        Seq::empty()
    } else {
        let before = lemma_bucket_samples(route, buckets, n - 1);
        let line = bucket_line(route, BOUND_LABELS@[n - 1]@, wrapped(total(buckets, n)));
        lemma_labels(n - 1);
        lemma_bucket_sample(route, BOUND_LABELS@[n - 1]@, wrapped(total(buckets, n)));
        lemma_more_samples(bucket_lines(route, buckets, n - 1), before, line);
        before.push(line.drop_last())
    }
}

proof fn lemma_route_samples(route: Seq<char>, hist: RouteHistView, seconds: Seq<char>) -> (samples:
    Seq<Seq<char>>)
    requires
        !seconds.contains('\n'),
    ensures
        is_samples(route_lines(route, hist, seconds), samples),
        samples.len() == 13,
        forall|k: int|
            0 <= k < 13 ==> #[trigger] samples[k] == sample_line(route, hist, seconds, k),
{
    let bounded = lemma_bucket_samples(route, hist.buckets, 10);
    let text = bucket_lines(route, hist.buckets, 10);
    reveal_strlit("+Inf");
    reveal_with_fuel(is_clean_to, 5);
    lemma_clean("+Inf"@);
    let inf = bucket_line(route, "+Inf"@, wrapped(total(hist.buckets, 11)));
    let sum = sum_line(route, seconds);
    let count = count_line(route, hist.count);
    lemma_bucket_sample(route, "+Inf"@, wrapped(total(hist.buckets, 11)));
    lemma_sum_sample(route, seconds);
    lemma_count_sample(route, hist.count);
    lemma_more_samples(text, bounded, inf);
    lemma_more_samples(text + inf, bounded.push(inf.drop_last()), sum);
    lemma_more_samples(
        text + inf + sum,
        bounded.push(inf.drop_last()).push(sum.drop_last()),
        count,
    );
    bounded.push(inf.drop_last()).push(sum.drop_last()).push(count.drop_last())
}

/// The lines of one route.
pub(crate) proof fn lemma_route_lines(
    route: Seq<char>,
    hist: RouteHistView,
    seconds: Seq<char>,
) -> (samples: Seq<Seq<char>>)
    requires
        !seconds.contains('\n'),
    ensures
        split_lines(route_lines(route, hist, seconds)) == samples,
        route_lines(route, hist, seconds) == joined(samples),
        samples.len() == 13,
        forall|k: int|
            0 <= k < 13 ==> #[trigger] samples[k] == sample_line(route, hist, seconds, k),
{
    let samples = lemma_route_samples(route, hist, seconds);
    assert forall|i: int| 0 <= i < samples.len() implies !(#[trigger] samples[i]).contains(
        '\n',
    ) by {
        assert(is_sample(samples[i]));
    }
    lemma_split_joined(samples);
    samples
}

proof fn lemma_all_samples(
    entries: Seq<(Seq<char>, RouteHistView)>,
    seconds: Seq<String>,
    n: int,
) -> (samples: Seq<Seq<char>>)
    requires
        0 <= n <= entries.len(),
        seconds.len() == entries.len(),
        forall|i: int| 0 <= i < seconds.len() ==> !(#[trigger] seconds[i])@.contains('\n'),
    ensures
        is_samples(all_lines(entries, seconds, n), samples),
        samples.len() == 13 * n,
        forall|j: int|
            0 <= j < samples.len() ==> #[trigger] samples[j] == sample_line(
                entries[j / 13].0,
                entries[j / 13].1,
                seconds[j / 13]@,
                j % 13,
            ),
    decreases n,
{
    if n == 0 {
        Seq::empty()
    } else {
        let before = lemma_all_samples(entries, seconds, n - 1);
        let (route, hist) = entries[n - 1];
        let own = lemma_route_samples(route, hist, seconds[n - 1]@);
        let samples = before + own;
        lemma_joined(before, own);
        assert forall|j: int| 0 <= j < samples.len() implies #[trigger] samples[j] == sample_line(
            entries[j / 13].0,
            entries[j / 13].1,
            seconds[j / 13]@,
            j % 13,
        ) by {
            if j < before.len() {
                assert(samples[j] == before[j]);
            } else {
                assert(samples[j] == own[j - before.len()]);
                assert(j / 13 == n - 1 && j % 13 == j - before.len());
            }
        }
        assert forall|i: int| 0 <= i < samples.len() implies is_sample(#[trigger] samples[i]) by {
            if i < before.len() {
                assert(samples[i] == before[i]);
            } else {
                assert(samples[i] == own[i - before.len()]);
            }
        }
        samples
    }
}

proof fn lemma_allocator(lines: Seq<Seq<char>>, allocator: AllocatorStats) -> (res: Seq<Seq<char>>)
    requires
        tidy(lines, 0),
    ensures
        tidy(res, 6),
        joined(res) == joined(lines) + allocator.lines(),
{
    let one = lines + gauge_lines(metric_names()[0], allocator.allocated);
    lemma_gauge(lines, 0, allocator.allocated);
    let two = one + gauge_lines(metric_names()[1], allocator.active);
    lemma_gauge(one, 1, allocator.active);
    let three = two + gauge_lines(metric_names()[2], allocator.resident);
    lemma_gauge(two, 2, allocator.resident);
    let four = three + gauge_lines(metric_names()[3], allocator.retained);
    lemma_gauge(three, 3, allocator.retained);
    let five = four + gauge_lines(metric_names()[4], allocator.mapped);
    lemma_gauge(four, 4, allocator.mapped);
    let six = five + gauge_lines(metric_names()[5], allocator.metadata);
    lemma_gauge(five, 5, allocator.metadata);
    let head = joined(lines);
    let a = optional_gauge(metric_names()[0], allocator.allocated);
    let b = optional_gauge(metric_names()[1], allocator.active);
    let c = optional_gauge(metric_names()[2], allocator.resident);
    let d = optional_gauge(metric_names()[3], allocator.retained);
    let e = optional_gauge(metric_names()[4], allocator.mapped);
    let f = optional_gauge(metric_names()[5], allocator.metadata);
    lemma_associative(head, a, b);
    lemma_associative(head, a + b, c);
    lemma_associative(head, a + b + c, d);
    lemma_associative(head, a + b + c + d, e);
    lemma_associative(head, a + b + c + d + e, f);
    six
}

proof fn lemma_responses(lines: Seq<Seq<char>>, responses: ResponseCacheMetrics) -> (res: Seq<
    Seq<char>,
>)
    requires
        tidy(lines, 6),
    ensures
        tidy(res, 11),
        joined(res) == joined(lines) + responses.lines(),
{
    lemma_kinds();
    let bytes = responses.memory_usage_bytes as nat;
    let one = lines + metric_lines(metric_names()[6], "gauge"@, bytes);
    lemma_metric(lines, 6, "gauge"@, bytes);
    let two = one + metric_lines(metric_names()[7], "gauge"@, responses.total_entries as nat);
    lemma_metric(one, 7, "gauge"@, responses.total_entries as nat);
    let three = two + metric_lines(metric_names()[8], "counter"@, responses.cache_hits as nat);
    lemma_metric(two, 8, "counter"@, responses.cache_hits as nat);
    let four = three + metric_lines(metric_names()[9], "counter"@, responses.cache_misses as nat);
    lemma_metric(three, 9, "counter"@, responses.cache_misses as nat);
    let five = four + metric_lines(metric_names()[10], "counter"@, responses.evictions as nat);
    lemma_metric(four, 10, "counter"@, responses.evictions as nat);
    let head = joined(lines);
    let a = metric(metric_names()[6], "gauge"@, bytes);
    let b = metric(metric_names()[7], "gauge"@, responses.total_entries as nat);
    let c = metric(metric_names()[8], "counter"@, responses.cache_hits as nat);
    let d = metric(metric_names()[9], "counter"@, responses.cache_misses as nat);
    let e = metric(metric_names()[10], "counter"@, responses.evictions as nat);
    lemma_associative(head, a, b);
    lemma_associative(head, a + b, c);
    lemma_associative(head, a + b + c, d);
    lemma_associative(head, a + b + c + d, e);
    five
}

proof fn lemma_layouts(lines: Seq<Seq<char>>, layouts: LayoutCacheMetrics) -> (res: Seq<Seq<char>>)
    requires
        tidy(lines, 11),
    ensures
        tidy(res, 13),
        joined(res) == joined(lines) + layouts.lines(),
{
    lemma_kinds();
    let one = lines + metric_lines(metric_names()[11], "gauge"@, layouts.bytes as nat);
    lemma_metric(lines, 11, "gauge"@, layouts.bytes as nat);
    let two = one + metric_lines(metric_names()[12], "gauge"@, layouts.entries as nat);
    lemma_metric(one, 12, "gauge"@, layouts.entries as nat);
    let head = joined(lines);
    let a = metric(metric_names()[11], "gauge"@, layouts.bytes as nat);
    let b = metric(metric_names()[12], "gauge"@, layouts.entries as nat);
    lemma_associative(head, a, b);
    two
}

/// No sum that is left to `spell` is spelled with a line feed.
pub open spec fn spelled_on_one_line(
    entries: Seq<(Seq<char>, RouteHistView)>,
    seconds: Seq<String>,
) -> bool {
    forall|i: int|
        0 <= i < entries.len() && (#[trigger] entries[i]).1.sum_micros >= EXACT_MICROS
            ==> !seconds[i]@.contains('\n')
}

proof fn lemma_fraction_clean(micros: nat, n: nat)
    requires
        micros < 1_000_000,
    ensures
        !fraction(micros, n).contains('\n'),
    decreases n,
{
    if micros > 0 && n > 0 {
        let first = seq![digit_char(10 * micros / 1_000_000)];
        let rest = fraction(10 * micros % 1_000_000, (n - 1) as nat);
        lemma_fraction_clean(10 * micros % 1_000_000, (n - 1) as nat);
        lemma_none_joined(first, rest, '\n');
    }
}

proof fn lemma_sums_on_one_line<F: Fn(u64) -> String>(
    page: Seq<char>,
    histograms: Map<Seq<char>, RouteHistView>,
    spell: F,
    entries: Seq<(Seq<char>, RouteHistView)>,
    seconds: Seq<String>,
)
    requires
        is_page(page, histograms, spell, entries, seconds),
        spelled_on_one_line(entries, seconds),
    ensures
        forall|i: int| 0 <= i < seconds.len() ==> !(#[trigger] seconds[i])@.contains('\n'),
{
    assert forall|i: int| 0 <= i < seconds.len() implies !(#[trigger] seconds[i])@.contains(
        '\n',
    ) by {
        let micros = entries[i].1.sum_micros;
        if micros < EXACT_MICROS {
            let whole = decimal((micros / 1_000_000) as nat);
            let digits = fraction((micros % 1_000_000) as nat, 6);
            reveal_strlit(".");
            lemma_decimal_clean((micros / 1_000_000) as nat);
            lemma_fraction_clean((micros % 1_000_000) as nat, 6);
            lemma_none_joined(whole, "."@, '\n');
            lemma_none_joined(whole + "."@, digits, '\n');
        }
    }
}

proof fn lemma_histogram_header()
    ensures
        "# TYPE rari_ssr_request_duration_seconds histogram\n"@ == type_line(
            metric_names()[13],
            "histogram"@,
        ) + seq!['\n'],
{
    reveal_strlit("# TYPE rari_ssr_request_duration_seconds histogram\n");
    reveal_strlit("# TYPE ");
    reveal_strlit("rari_ssr_request_duration_seconds");
    reveal_strlit(" ");
    reveal_strlit("histogram");
    assert("# TYPE rari_ssr_request_duration_seconds histogram\n"@ =~= type_line(
        metric_names()[13],
        "histogram"@,
    ) + seq!['\n']);
}

proof fn lemma_histograms<F: Fn(u64) -> String>(
    lines: Seq<Seq<char>>,
    page: Seq<char>,
    histograms: Map<Seq<char>, RouteHistView>,
    spell: F,
    entries: Seq<(Seq<char>, RouteHistView)>,
    seconds: Seq<String>,
) -> (res: Seq<Seq<char>>)
    requires
        tidy(lines, 13),
        is_page(page, histograms, spell, entries, seconds),
        spelled_on_one_line(entries, seconds),
    ensures
        typed_once(res),
        typed_before(res),
        forall|i: int| 0 <= i < res.len() ==> !(#[trigger] res[i]).contains('\n'),
        joined(res) == joined(lines) + page,
{
    if entries.len() == 0 {
        assert(joined(lines) + page =~= joined(lines));
        lines
    } else {
        lemma_sums_on_one_line(page, histograms, spell, entries, seconds);
        let samples = lemma_all_samples(entries, seconds, entries.len() as int);
        let header = type_line(metric_names()[13], "histogram"@);
        let own = seq![header] + samples;
        lemma_kinds();
        lemma_append(lines, 13, "histogram"@, samples);
        lemma_joined(lines, own);
        lemma_joined_first(header, samples);
        lemma_histogram_header();
        assert(joined(lines + own) =~= joined(lines) + page);
        lines + own
    }
}

/// On the metrics page no metric is given its type twice, and each sample stands
/// behind the line that gives the type of its metric, whatever the routes are
/// called. (A sum that is left to `spell` must not be spelled with a line feed.)
pub proof fn law_each_metric_is_typed_once<F: Fn(u64) -> String>(
    allocator: AllocatorStats,
    responses: ResponseCacheMetrics,
    layouts: LayoutCacheMetrics,
    page: Seq<char>,
    histograms: Map<Seq<char>, RouteHistView>,
    spell: F,
    entries: Seq<(Seq<char>, RouteHistView)>,
    seconds: Seq<String>,
)
    requires
        is_page(page, histograms, spell, entries, seconds),
        spelled_on_one_line(entries, seconds),
    ensures
        ({
            let lines = split_lines(
                allocator.lines() + responses.lines() + layouts.lines() + page,
            );
            typed_once(lines) && typed_before(lines)
        }),
{
    let none: Seq<Seq<char>> = Seq::empty();
    let one = lemma_allocator(none, allocator);
    let two = lemma_responses(one, responses);
    let three = lemma_layouts(two, layouts);
    let lines = lemma_histograms(three, page, histograms, spell, entries, seconds);
    lemma_split_joined(lines);
    assert(joined(none) + allocator.lines() =~= allocator.lines());
}

/// A page of histograms has one line for their type and thirteen for each route,
/// and each line is ended by a line feed. (A sum that is left to `spell` must not
/// be spelled with a line feed.)
pub proof fn law_thirteen_lines_per_route<F: Fn(u64) -> String>(
    page: Seq<char>,
    histograms: Map<Seq<char>, RouteHistView>,
    spell: F,
    entries: Seq<(Seq<char>, RouteHistView)>,
    seconds: Seq<String>,
)
    requires
        is_page(page, histograms, spell, entries, seconds),
        spelled_on_one_line(entries, seconds),
    ensures
        histograms.dom().len() == entries.len(),
        split_lines(page).len() == if entries.len() == 0 {
            0
        } else {
            1 + 13 * entries.len()
        },
        page == joined(split_lines(page)),
{
    lemma_as_many_routes(entries, histograms);
    if entries.len() > 0 {
        let samples = lemma_page_lines(page, histograms, spell, entries, seconds);
        let header = type_line(metric_names()[13], "histogram"@);
        lemma_joined_first(header, samples);
    }
}

/// The lines of a page of histograms: the first, and then the samples.
pub(crate) proof fn lemma_page_lines<F: Fn(u64) -> String>(
    page: Seq<char>,
    histograms: Map<Seq<char>, RouteHistView>,
    spell: F,
    entries: Seq<(Seq<char>, RouteHistView)>,
    seconds: Seq<String>,
) -> (samples: Seq<Seq<char>>)
    requires
        is_page(page, histograms, spell, entries, seconds),
        spelled_on_one_line(entries, seconds),
        entries.len() > 0,
    ensures
        split_lines(page) == seq![type_line(metric_names()[13], "histogram"@)] + samples,
        page == joined(split_lines(page)),
        samples.len() == 13 * entries.len(),
        forall|j: int|
            0 <= j < samples.len() ==> #[trigger] samples[j] == sample_line(
                entries[j / 13].0,
                entries[j / 13].1,
                seconds[j / 13]@,
                j % 13,
            ),
{
    lemma_sums_on_one_line(page, histograms, spell, entries, seconds);
    let samples = lemma_all_samples(entries, seconds, entries.len() as int);
    let header = type_line(metric_names()[13], "histogram"@);
    let lines = seq![header] + samples;
    lemma_kinds();
    lemma_names(13);
    lemma_type_line(metric_names()[13], "histogram"@);
    lemma_joined_first(header, samples);
    lemma_histogram_header();
    assert forall|i: int| 0 <= i < lines.len() implies !(#[trigger] lines[i]).contains('\n') by {
        if i > 0 {
            assert(lines[i] == samples[i - 1]);
        }
    }
    lemma_split_joined(lines);
    assert(page == joined(lines));
    samples
}

proof fn lemma_as_many_routes(
    entries: Seq<(Seq<char>, RouteHistView)>,
    histograms: Map<Seq<char>, RouteHistView>,
)
    requires
        lists(entries, histograms),
    ensures
        histograms.dom().len() == entries.len(),
{
    let routes = entries.map_values(|entry: (Seq<char>, RouteHistView)| entry.0);
    assert forall|i: int, j: int| 0 <= i < j < routes.len() implies #[trigger] routes[i]
        != #[trigger] routes[j] by {
        assert(entries[i].0 != entries[j].0);
    }
    routes.unique_seq_to_set();
    assert forall|route: Seq<char>|
        histograms.dom().contains(route) <==> #[trigger] routes.to_set().contains(route) by {
        if histograms.contains_key(route) {
            let i = choose|i: int| 0 <= i < entries.len() && (#[trigger] entries[i]).0 == route;
            assert(routes[i] == route);
        }
        if routes.contains(route) {
            let i = choose|i: int| 0 <= i < routes.len() && routes[i] == route;
            assert(histograms.contains_pair(entries[i].0, entries[i].1));
        }
    }
    assert(histograms.dom() =~= routes.to_set());
}

} // verus!
