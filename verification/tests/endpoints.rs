use rari_server::allocator::AllocatorStats;
use rari_server::heap_dump::check_access;
use rari_server::heap_dump::refuse_access;
use rari_server::heap_dump::refuse_dump;
use rari_server::heap_dump::reply_dump;
use rari_server::heap_dump::Access;
use rari_server::heap_dump::Admitted;
use rari_server::http::Body;
use rari_server::http::HttpReply;
use rari_server::metrics_http::HistogramRegistry;
use rari_server::metrics_page::reply_metrics;
use rari_server::metrics_page::reply_page;
use rari_server::metrics_page::reply_stale;
use rari_server::metrics_page::LayoutCacheMetrics;
use rari_server::metrics_page::ResponseCacheMetrics;
use rari_server::profiler::ProfilerStatus;
use rari_server::types::ReloadComponentResponse;
use rari_server::types::RenderResponse;
use rari_server::types::FALLBACK_HTML_CACHE_CAPACITY;

fn text_of(reply: &HttpReply) -> &str {
    match &reply.body {
        Body::Text(text) => text,
        Body::Bytes(_) => panic!("not a text"),
    }
}

fn some(text: &str) -> Option<String> {
    Some(text.to_string())
}

#[test]
fn without_a_token_nobody_gets_a_profile() {
    for token in [None, some("")] {
        for provided in [None, some(""), some("s3")] {
            let reply = refuse_access(&token, &provided).unwrap();
            assert_eq!(reply.status, 403);
            assert_eq!(
                text_of(&reply),
                "heap dump disabled: set RARI_PROFILING_TOKEN and run with \
                 MALLOC_CONF=prof:true,prof_active:true"
            );
            assert!(reply.headers.is_empty());
        }
    }
}

#[test]
fn wrong_token_is_denied() {
    for provided in [None, some(""), some("s"), some("s33"), some("S3")] {
        let reply = refuse_access(&some("s3"), &provided).unwrap();
        assert_eq!(reply.status, 401);
        assert_eq!(text_of(&reply), "invalid profiling token");
    }
}

#[test]
fn right_token_is_granted() {
    assert_eq!(check_access(&some("s\u{e9}3"), &some("s\u{e9}3")), Access::Granted);
    assert!(refuse_access(&some("s3"), &some("s3")).is_none());
}

#[test]
fn profiler_must_be_active() {
    let reply = refuse_dump(ProfilerStatus::Unavailable).unwrap();
    assert_eq!(reply.status, 503);
    assert_eq!(text_of(&reply), "jemalloc profiling unavailable");
    let reply = refuse_dump(ProfilerStatus::Inactive).unwrap();
    assert_eq!(reply.status, 503);
    assert_eq!(
        text_of(&reply),
        "heap profiling not active; run with MALLOC_CONF=prof:true,prof_active:true"
    );
    assert!(refuse_dump(ProfilerStatus::Active).is_none());
}

#[test]
fn profile_is_handed_out_as_a_file() {
    let reply = reply_dump(Ok(vec![1, 2, 3]));
    assert_eq!(reply.status, 200);
    assert_eq!(
        reply.headers,
        vec![
            ("content-type".to_string(), "application/octet-stream".to_string()),
            (
                "content-disposition".to_string(),
                "attachment; filename=\"rari-heap.pb.gz\"".to_string()
            ),
        ]
    );
    assert!(matches!(reply.body, Body::Bytes(bytes) if bytes == vec![1, 2, 3]));
}

#[test]
fn failed_dump_is_reported() {
    let reply = reply_dump(Err("no space".to_string()));
    assert_eq!(reply.status, 500);
    assert_eq!(text_of(&reply), "dump_pprof failed: no space");
}

#[test]
fn stale_statistics_are_reported() {
    let reply = reply_stale("EINVAL");
    assert_eq!(reply.status, 500);
    assert_eq!(text_of(&reply), "# jemalloc epoch advance failed: EINVAL\n");
}

fn responses() -> ResponseCacheMetrics {
    ResponseCacheMetrics {
        memory_usage_bytes: 1024,
        total_entries: 7,
        cache_hits: 90,
        cache_misses: 10,
        evictions: u64::MAX,
    }
}

const CACHES: &str = "# TYPE rari_response_cache_bytes gauge\nrari_response_cache_bytes 1024\n\
    # TYPE rari_response_cache_entries gauge\nrari_response_cache_entries 7\n\
    # TYPE rari_response_cache_hits_total counter\nrari_response_cache_hits_total 90\n\
    # TYPE rari_response_cache_misses_total counter\nrari_response_cache_misses_total 10\n\
    # TYPE rari_response_cache_evictions_total counter\n\
    rari_response_cache_evictions_total 18446744073709551615\n\
    # TYPE rari_layout_cache_bytes gauge\nrari_layout_cache_bytes 0\n\
    # TYPE rari_layout_cache_entries gauge\nrari_layout_cache_entries 3\n";

#[test]
fn metrics_page_lists_everything() {
    let allocator = AllocatorStats {
        allocated: Some(10),
        active: Some(20),
        resident: Some(30),
        retained: Some(40),
        mapped: Some(50),
        metadata: Some(60),
    };
    let layouts = LayoutCacheMetrics { bytes: 0, entries: 3 };
    let mut registry = HistogramRegistry::new();
    registry.record("/a", 1, 2);
    let reply =
        reply_page(&allocator, &responses(), &layouts, &registry, |_| "sum".to_string());
    assert_eq!(reply.status, 200);
    assert_eq!(
        reply.headers,
        vec![("content-type".to_string(), "text/plain; version=0.0.4".to_string())]
    );
    let gauges = "# TYPE rari_jemalloc_allocated_bytes gauge\nrari_jemalloc_allocated_bytes 10\n\
        # TYPE rari_jemalloc_active_bytes gauge\nrari_jemalloc_active_bytes 20\n\
        # TYPE rari_jemalloc_resident_bytes gauge\nrari_jemalloc_resident_bytes 30\n\
        # TYPE rari_jemalloc_retained_bytes gauge\nrari_jemalloc_retained_bytes 40\n\
        # TYPE rari_jemalloc_mapped_bytes gauge\nrari_jemalloc_mapped_bytes 50\n\
        # TYPE rari_jemalloc_metadata_bytes gauge\nrari_jemalloc_metadata_bytes 60\n";
    let text = text_of(&reply);
    assert!(text.starts_with(&format!("{}{}", gauges, CACHES)));
    let rest = &text[gauges.len() + CACHES.len()..];
    assert!(rest.starts_with("# TYPE rari_ssr_request_duration_seconds histogram\n"));
    assert!(rest.contains("_sum{route=\"/a\"} 0.000002\n"));
}

#[test]
fn statistics_that_cannot_be_read_are_left_out() {
    let allocator = AllocatorStats {
        allocated: None,
        active: None,
        resident: Some(0),
        retained: None,
        mapped: None,
        metadata: None,
    };
    let layouts = LayoutCacheMetrics { bytes: 0, entries: 3 };
    let registry = HistogramRegistry::new();
    let reply =
        reply_page(&allocator, &responses(), &layouts, &registry, |_| "sum".to_string());
    assert_eq!(
        text_of(&reply),
        "# TYPE rari_jemalloc_resident_bytes gauge\nrari_jemalloc_resident_bytes 0\n".to_string()
            + CACHES
    );
}

#[test]
fn metrics_page_shows_the_allocator_as_it_stands() {
    let layouts = LayoutCacheMetrics { bytes: 0, entries: 3 };
    let registry = HistogramRegistry::new();
    let reply = reply_metrics(&responses(), &layouts, &registry, |_| "sum".to_string());
    assert_eq!(reply.status, 200);
    let text = text_of(&reply);
    for name in ["allocated", "active", "resident", "retained", "mapped", "metadata"] {
        let header = format!("# TYPE rari_jemalloc_{}_bytes gauge\n", name);
        let start = text.find(&header).unwrap() + header.len();
        let line = text[start..].lines().next().unwrap();
        let value = line.strip_prefix(format!("rari_jemalloc_{}_bytes ", name).as_str()).unwrap();
        assert!(value.parse::<u64>().is_ok());
    }
    assert!(text.ends_with(CACHES));
}

#[test]
fn responses_keep_what_they_are_given() {
    let response = RenderResponse {
        success: true,
        data: some("<p/>"),
        error: None,
        component_id: "App".to_string(),
        render_time_ms: 3,
    };
    assert!(response.success && response.error.is_none());
    let response = ReloadComponentResponse { success: false, message: "gone".to_string() };
    assert_eq!(response.message, "gone");
    assert_eq!(FALLBACK_HTML_CACHE_CAPACITY, 256);
}

fn asked(
    token: Option<String>,
    provided: Option<String>,
    status: ProfilerStatus,
    dump: Result<Vec<u8>, String>,
) -> HttpReply {
    let admitted = match Admitted::ask(token, provided) {
        Ok(admitted) => admitted,
        Err(reply) => return reply,
    };
    match admitted.found(status) {
        Ok(ready) => ready.dumped(dump),
        Err(reply) => reply,
    }
}

#[test]
fn profile_is_given_to_whoever_has_the_token() {
    let active = ProfilerStatus::Active;
    let inactive = ProfilerStatus::Inactive;
    assert_eq!(asked(None, some("s3"), active, Ok(vec![1])).status, 403);
    assert_eq!(asked(some("s3"), None, active, Ok(vec![1])).status, 401);
    assert_eq!(asked(some("s3"), some("s4"), inactive, Ok(vec![1])).status, 401);
    assert_eq!(asked(some("s3"), some("s3"), inactive, Ok(vec![1])).status, 503);
    assert_eq!(asked(some("s3"), some("s3"), active, Err("e".to_string())).status, 500);
    let reply = asked(some("s3"), some("s3"), active, Ok(vec![1]));
    assert_eq!(reply.status, 200);
    assert!(matches!(reply.body, Body::Bytes(bytes) if bytes == vec![1]));
}

#[test]
fn each_metric_is_typed_once_and_before_its_samples() {
    let layouts = LayoutCacheMetrics { bytes: 0, entries: 3 };
    let mut registry = HistogramRegistry::new();
    registry.record("/a\n# TYPE rari_layout_cache_bytes gauge", 1, 2);
    registry.record("/b", 1, 2);
    let reply = reply_metrics(&responses(), &layouts, &registry, |_| "0".to_string());
    let mut typed: Vec<String> = Vec::new();
    for line in text_of(&reply).lines() {
        if let Some(rest) = line.strip_prefix("# TYPE ") {
            let name = rest.split(' ').next().unwrap().to_string();
            assert!(!typed.contains(&name));
            typed.push(name);
        } else {
            let name = line.split(' ').next().unwrap().split('{').next().unwrap();
            assert!(typed.iter().any(|metric| {
                ["", "_bucket", "_sum", "_count"]
                    .iter()
                    .any(|suffix| name == format!("{}{}", metric, suffix))
            }));
        }
    }
    assert_eq!(typed.len(), 14);
}
