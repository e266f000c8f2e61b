use rari_server::gateway::GatewayClient;
use rari_server::gateway::GatewayEnv;
use rari_server::gateway::LogLine;
use rari_server::gateway::Message;
use rari_server::gateway::Reaction;
use rari_server::gateway::Request;
use rari_server::profiler::dump_outcome;
use rari_server::profiler::ProfilerStatus;
use rari_server::profiler::Purpose;

fn client(gateway: &str, hostname: Option<&str>, node: Option<&str>) -> Option<GatewayClient> {
    GatewayClient::from_env(GatewayEnv {
        gateway: Some(gateway.to_string()),
        hostname: hostname.map(String::from),
        node_name: node.map(String::from),
    })
}

#[test]
fn no_gateway_no_client() {
    assert!(client("", None, None).is_none());
    let env = GatewayEnv { gateway: None, hostname: None, node_name: None };
    assert!(GatewayClient::from_env(env).is_none());
}

#[test]
fn scheme_becomes_that_of_a_web_socket() {
    assert_eq!(client("https://g:1/x", None, None).unwrap().ws_url, "wss://g:1/x/connect");
    assert_eq!(client("http://g", None, None).unwrap().ws_url, "ws://g/connect");
    assert_eq!(client("wss://g", None, None).unwrap().ws_url, "wss://g/connect");
    assert_eq!(client("https:/", None, None).unwrap().ws_url, "https://connect");
    assert_eq!(client("h\u{e9}", None, None).unwrap().ws_url, "h\u{e9}/connect");
}

#[test]
fn hostname_names_the_node() {
    assert_eq!(client("g", Some("web-1"), Some("n7")).unwrap().hostname, "web-1@n7");
    assert_eq!(client("g", Some("web-1"), None).unwrap().hostname, "web-1");
    assert_eq!(client("g", None, Some("")).unwrap().hostname, "rari-unknown@");
}

#[test]
fn end_of_a_session_is_logged() {
    let line = GatewayClient::log_end(Ok(()));
    assert!(
        matches!(line, LogLine::Info(text) if text == "pprof-gateway session closed; reconnecting")
    );
    let line = GatewayClient::log_end(Err("refused".to_string()));
    assert!(matches!(line, LogLine::Warn(text)
        if text == "pprof-gateway connect failed: refused; retrying in 30s"));
}

#[test]
fn connection_is_logged() {
    let line = client("g", Some("web-1"), None).unwrap().log_connected("c9");
    assert!(matches!(line, LogLine::Info(text)
        if text == "connected to pprof gateway as web-1 (id=c9)"));
}

#[test]
fn request_is_read_from_its_members() {
    let request = Request::read("{\"id\":\"1\",\"id\":\"2\",\"type\":true,\"url\":\"u\"}").unwrap();
    assert_eq!(request.id.as_deref(), Some("2"));
    assert_eq!(request.kind, None);
    assert_eq!(request.url.as_deref(), Some("u"));
    let expected = serde_json::from_str::<serde_json::Value>("{").unwrap_err().to_string();
    assert_eq!(Request::read("{").err(), Some(expected));
}

#[test]
fn reaction_follows_from_the_request() {
    let request = Request {
        kind: Some("profile".to_string()),
        id: Some("1".to_string()),
        url: Some("?/debug/pprof/heap".to_string()),
    };
    match request.reaction() {
        Reaction::Say(Message::Profile { id, status_code, body, content_type, error }) => {
            assert_eq!(id, "1");
            assert_eq!(status_code, 404);
            assert_eq!(body, "");
            assert_eq!(content_type, "");
            assert_eq!(error, "profile  not supported by rari (heap only)");
        }
        _ => panic!("not answered"),
    }
}

#[test]
fn profile_is_sent_in_base64() {
    for (bytes, expected) in [
        (vec![], ""),
        (vec![0x4d], "TQ=="),
        (vec![0x4d, 0x61], "TWE="),
        (vec![0x4d, 0x61, 0x6e], "TWFu"),
        (vec![0xfb, 0xff, 0xfe, 0x00], "+//+AA=="),
    ] {
        let answer = Message::heap_answer("r1".to_string(), Ok(bytes));
        assert_eq!(
            answer.json(),
            format!(
                "{{\"body\":\"{}\",\"content_type\":\"application/octet-stream\",\"error\":\"\",\
                 \"headers\":{{}},\"id\":\"r1\",\"status_code\":200}}",
                expected
            )
        );
    }
}

#[test]
fn failed_dump_is_answered_with_its_reason() {
    let reason = ProfilerStatus::Unavailable.refusal().unwrap().to_string();
    let answer = Message::heap_answer("r1".to_string(), Err(reason));
    assert_eq!(
        answer.json(),
        "{\"body\":\"\",\"content_type\":\"\",\"error\":\"jemalloc profiling unavailable\",\
         \"headers\":{},\"id\":\"r1\",\"status_code\":500}"
    );
}

#[test]
fn inactive_profiler_says_how_to_switch_it_on() {
    assert_eq!(
        ProfilerStatus::Inactive.refusal(),
        Some("heap profiling not active; run with MALLOC_CONF=prof:true,prof_active:true")
    );
    assert_eq!(ProfilerStatus::Active.refusal(), None);
}

#[test]
fn status_follows_from_the_profiler() {
    assert_eq!(ProfilerStatus::of(None), ProfilerStatus::Unavailable);
    assert_eq!(ProfilerStatus::of(Some(false)), ProfilerStatus::Inactive);
    assert_eq!(ProfilerStatus::of(Some(true)), ProfilerStatus::Active);
}

#[test]
fn profile_comes_of_an_active_profiler_alone() {
    assert_eq!(dump_outcome(ProfilerStatus::Active, Ok(vec![1])), Ok(vec![1]));
    let failed = Err("no space".to_string());
    assert_eq!(dump_outcome(ProfilerStatus::Active, failed.clone()), failed);
    assert_eq!(
        dump_outcome(ProfilerStatus::Unavailable, Ok(vec![1])),
        Err("jemalloc profiling unavailable".to_string())
    );
    assert_eq!(
        dump_outcome(ProfilerStatus::Inactive, Ok(vec![1])),
        Err("heap profiling not active; run with MALLOC_CONF=prof:true,prof_active:true"
            .to_string())
    );
}

#[test]
fn symbols_are_cleared_after_a_dump() {
    let (taken, failed) = (Ok(vec![1]), Err("e".to_string()));
    assert!(Purpose::Push.clears_symbols(&taken));
    assert!(!Purpose::Push.clears_symbols(&failed));
    assert!(Purpose::Gateway.clears_symbols(&taken));
    assert!(Purpose::Gateway.clears_symbols(&failed));
    assert!(!Purpose::Download.clears_symbols(&taken));
}
