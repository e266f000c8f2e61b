use rari_server::labels::push_escaped;
use rari_server::metrics_http::bucket_index;
use rari_server::metrics_http::render_prometheus;
use rari_server::metrics_http::render_route;
use rari_server::metrics_http::HistogramRegistry;
use rari_server::metrics_http::RequestTimer;
use rari_server::metrics_http::RouteHist;
use rari_server::metrics_http::BOUNDS_NANOS;
use rari_server::metrics_http::BOUND_LABELS;
use rari_server::seconds::write_seconds;
use rari_server::seconds::EXACT_MICROS;

const SECONDS: [f64; 10] = [0.005, 0.025, 0.1, 0.25, 0.5, 1.0, 2.5, 5.0, 10.0, 30.0];

fn spell(micros: u64) -> String {
    format!("{}", micros as f64 / 1e6)
}

fn page(registry: &HistogramRegistry) -> String {
    let mut out = String::new();
    render_prometheus(&mut out, registry, spell);
    out
}

fn lines_of(route: &str, counts: [u64; 11], sum: &str) -> String {
    let mut out = String::new();
    for i in 0..10 {
        out.push_str(&format!(
            "rari_ssr_request_duration_seconds_bucket{{route=\"{}\",le=\"{}\"}} {}\n",
            route, BOUND_LABELS[i], counts[i]
        ));
    }
    out.push_str(&format!(
        "rari_ssr_request_duration_seconds_bucket{{route=\"{}\",le=\"+Inf\"}} {}\n",
        route, counts[10]
    ));
    out.push_str(&format!(
        "rari_ssr_request_duration_seconds_sum{{route=\"{}\"}} {}\n",
        route, sum
    ));
    out.push_str(&format!(
        "rari_ssr_request_duration_seconds_count{{route=\"{}\"}} {}\n",
        route, counts[10]
    ));
    out
}

#[test]
fn bounds_belong_to_their_bucket() {
    assert_eq!(bucket_index(0), 0);
    assert_eq!(bucket_index(5_000_000), 0);
    assert_eq!(bucket_index(5_000_001), 1);
    assert_eq!(bucket_index(25_000_000), 1);
    assert_eq!(bucket_index(1_000_000_000), 5);
    assert_eq!(bucket_index(30_000_000_000), 9);
    assert_eq!(bucket_index(30_000_000_001), 10);
    assert_eq!(bucket_index(u128::MAX), 10);
}

#[test]
fn bounds_in_nanoseconds_are_those_in_seconds() {
    for bound in BOUNDS_NANOS {
        for nanos in [bound - 1, bound, bound + 1] {
            let seconds = std::time::Duration::from_nanos(nanos).as_secs_f64();
            let expected = SECONDS.iter().position(|b| seconds <= *b).unwrap_or(10);
            assert_eq!(bucket_index(nanos as u128), expected);
        }
    }
}

#[test]
fn labels_spell_the_bounds() {
    for i in 0..10 {
        assert_eq!(BOUND_LABELS[i], format!("{}", SECONDS[i]));
        assert_eq!(BOUNDS_NANOS[i] as f64 / 1e9, SECONDS[i]);
    }
}

#[test]
fn nothing_is_rendered_of_an_empty_registry() {
    let mut out = "before".to_string();
    render_prometheus(&mut out, &HistogramRegistry::new(), spell);
    assert_eq!(out, "before");
}

#[test]
fn one_route_is_rendered_with_cumulative_buckets() {
    let mut registry = HistogramRegistry::new();
    registry.record("/news/[slug]", 1_000_000, 1_000);
    registry.record("/news/[slug]", 20_000_000, 20_000);
    registry.record("/news/[slug]", 24_000_000, 24_000);
    registry.record("/news/[slug]", 2_000_000_000, 2_000_000);
    registry.record("/news/[slug]", 31_000_000_000, 31_000_000);
    let expected = "# TYPE rari_ssr_request_duration_seconds histogram\n".to_string()
        + &lines_of("/news/[slug]", [1, 3, 3, 3, 3, 3, 4, 4, 4, 4, 5], "33.045");
    assert_eq!(page(&registry), expected);
}

#[test]
fn page_is_appended() {
    let mut registry = HistogramRegistry::new();
    registry.record("/", 0, 0);
    let mut out = "# x\n".to_string();
    render_prometheus(&mut out, &registry, spell);
    assert_eq!(
        out,
        "# x\n# TYPE rari_ssr_request_duration_seconds histogram\n".to_string()
            + &lines_of("/", [1; 11], "0")
    );
}

#[test]
fn each_route_is_rendered_once() {
    let mut registry = HistogramRegistry::new();
    registry.record("/a", 1, 1);
    registry.record("/b", 31_000_000_000, 31_000_000);
    registry.record("/a", 1, 1);
    let header = "# TYPE rari_ssr_request_duration_seconds histogram\n";
    let a = lines_of("/a", [2; 11], "0.000002");
    let b = lines_of("/b", [0, 0, 0, 0, 0, 0, 0, 0, 0, 0, 1], "31");
    let out = page(&registry);
    assert!(out == format!("{}{}{}", header, a, b) || out == format!("{}{}{}", header, b, a));
}

#[test]
fn records_commute() {
    let mut one = HistogramRegistry::new();
    one.record("/a", 7_000_000, 7_000);
    one.record("/a", 400_000_000, 400_000);
    let mut other = HistogramRegistry::new();
    other.record("/a", 400_000_000, 400_000);
    other.record("/a", 7_000_000, 7_000);
    assert_eq!(page(&one), page(&other));
    assert!(page(&one).contains("le=\"0.25\"} 1\n"));
    assert!(page(&one).contains("le=\"0.5\"} 2\n"));
}

#[test]
fn sum_wraps_around() {
    let mut hist = RouteHist::default();
    hist.observe(0, u64::MAX);
    hist.observe(0, 3);
    let mut registry = HistogramRegistry::new();
    registry.record("/a", 0, u64::MAX);
    registry.record("/a", 0, 3);
    let mut out = String::new();
    render_prometheus(&mut out, &registry, spell);
    assert!(out.contains("_sum{route=\"/a\"} 0.000002\n"));
    let mut own = String::new();
    render_route(&mut own, "/a", &hist, "0.000002");
    assert!(out.ends_with(&own));
}

#[test]
fn sum_is_spelled_by_the_caller() {
    let mut out = String::new();
    render_route(&mut out, "/a", &RouteHist::default(), "zero");
    assert_eq!(out, lines_of("/a", [0; 11], "zero"));
}

#[test]
fn timer_records_under_its_route() {
    let before = std::time::Instant::now();
    let timer = RequestTimer::start("/timed");
    let after = std::time::Instant::now();
    assert!(before <= timer.started_at() && timer.started_at() <= after);
    let mut registry = HistogramRegistry::new();
    timer.finish(&mut registry, 3_000_000_000, 3_000_000);
    assert!(page(&registry).contains("_count{route=\"/timed\"} 1\n"));
    assert!(page(&registry).contains("_sum{route=\"/timed\"} 3\n"));
}

#[test]
fn labels_are_escaped() {
    let mut out = "x".to_string();
    push_escaped(&mut out, "a\"b\\c\nd\u{e9}\"");
    assert_eq!(out, "xa\\\"b\\\\c\\nd\u{e9}\\\"");
    let mut out = String::new();
    push_escaped(&mut out, "/news/[slug]");
    assert_eq!(out, "/news/[slug]");
    let mut out = String::new();
    push_escaped(&mut out, "");
    assert_eq!(out, "");
}

#[test]
fn routes_are_written_as_label_values() {
    for (route, label) in
        [("a\"b", "a\\\"b"), ("a\\", "a\\\\"), ("a\n# TYPE x gauge\nx 1", "a\\n# TYPE x gauge\\nx 1")]
    {
        let mut registry = HistogramRegistry::new();
        registry.record(route, 500_000_000, 500_000);
        let expected = "# TYPE rari_ssr_request_duration_seconds histogram\n".to_string()
            + &lines_of(label, [0, 0, 0, 0, 1, 1, 1, 1, 1, 1, 1], "0.5");
        assert_eq!(page(&registry), expected);
    }
}

#[test]
fn texts_are_told_apart_by_their_labels() {
    let mut one = String::new();
    push_escaped(&mut one, "a\\n");
    let mut other = String::new();
    push_escaped(&mut other, "a\n");
    assert_eq!(one, "a\\\\n");
    assert_eq!(other, "a\\n");
}

#[test]
fn any_order_of_records_gives_the_same_page() {
    let durations = [3_000_000u128, 20_000_000, 90_000_000, 40_000_000_000];
    let pages: Vec<String> = [[0, 1, 2, 3], [3, 2, 1, 0], [2, 0, 3, 1]]
        .iter()
        .map(|order| {
            let mut registry = HistogramRegistry::new();
            for i in order {
                registry.record("/a", durations[*i], durations[*i] as u64 / 1000);
            }
            page(&registry)
        })
        .collect();
    assert_eq!(pages[0], pages[1]);
    assert_eq!(pages[0], pages[2]);
    assert!(pages[0].ends_with(&lines_of("/a", [1, 2, 3, 3, 3, 3, 3, 3, 3, 3, 4], "40.113")));
}

#[test]
fn rendering_changes_nothing() {
    let mut registry = HistogramRegistry::new();
    registry.record("/a", 7, 7);
    registry.record("/b", 8, 8);
    let lines = |text: &str| {
        let mut lines: Vec<String> = text.lines().map(String::from).collect();
        lines.sort();
        lines
    };
    assert_eq!(lines(&page(&registry)), lines(&page(&registry)));
}

#[test]
fn one_record_shows_in_its_route_alone() {
    let mut registry = HistogramRegistry::new();
    registry.record("/a", 1, 1_000_000);
    registry.record("/b", 1, 1);
    let other = lines_of("/b", [1; 11], "0.000001");
    assert!(page(&registry).contains(&lines_of("/a", [1; 11], "1")));
    assert!(page(&registry).contains(&other));
    registry.record("/a", 1_000_000_000, 1_000_000);
    let own = lines_of("/a", [1, 1, 1, 1, 1, 2, 2, 2, 2, 2, 2], "2");
    assert!(page(&registry).contains(&own));
    assert!(page(&registry).contains(&other));
}

#[test]
fn finished_timers_are_counted_once_each() {
    let mut registry = HistogramRegistry::new();
    for i in 0..5 {
        RequestTimer::start("/a").finish(&mut registry, i, 0);
        RequestTimer::start("/b").finish(&mut registry, i, 0);
    }
    assert!(page(&registry).contains("_count{route=\"/a\"} 5\n"));
}

#[test]
fn seconds_are_those_of_a_double() {
    let mut samples = vec![0, 1, 10, 999_999, 1_000_000, 1_000_001, 33_045_000, 1_230_000];
    for back in 1..2000 {
        samples.push(EXACT_MICROS - back);
    }
    let mut state = 1u64;
    for _ in 0..200_000 {
        state = state.wrapping_mul(6364136223846793005).wrapping_add(1442695040888963407);
        samples.push((state >> (state % 60)) % EXACT_MICROS);
    }
    for micros in samples {
        assert_eq!(write_seconds(micros), spell(micros));
    }
    assert_eq!(write_seconds(33_045_000), "33.045");
    assert_eq!(write_seconds(EXACT_MICROS - 1), "8589934591.999999");
}

#[test]
fn sums_of_centuries_are_left_to_the_caller() {
    let mut registry = HistogramRegistry::new();
    registry.record("/a", 1, EXACT_MICROS);
    let mut out = String::new();
    render_prometheus(&mut out, &registry, |micros: u64| format!("<{}>", micros));
    assert!(out.contains(&format!("_sum{{route=\"/a\"}} <{}>\n", EXACT_MICROS)));
    let mut registry = HistogramRegistry::new();
    registry.record("/a", 1, EXACT_MICROS - 1);
    let mut out = String::new();
    render_prometheus(&mut out, &registry, |micros: u64| format!("<{}>", micros));
    assert!(out.contains("_sum{route=\"/a\"} 8589934591.999999\n"));
}

#[test]
fn page_has_thirteen_lines_per_route() {
    let mut registry = HistogramRegistry::new();
    for (n, route) in ["/a", "/b\n", "/c"].iter().enumerate() {
        registry.record(route, 1, 1);
        let text = page(&registry);
        assert_eq!(text.lines().count(), 1 + 13 * (n + 1));
        assert!(text.ends_with('\n'));
    }
}
