use rari_server::profiler::ProfilerStatus;
use rari_server::pyroscope::Pusher;
use rari_server::pyroscope::PusherAction;
use rari_server::pyroscope::PusherEvent;
use rari_server::pyroscope::PusherStep;
use rari_server::pyroscope::PyroscopeEnv;
use rari_server::pyroscope::INPUT_CHAR_BYTES;
use rari_server::pyroscope::OTHER_PARAM_CHARS;
use rari_server::pyroscope::PARAM_CHAR_BYTES;
use rari_server::pyroscope::PUSH_INTERVAL_SECS;
use rari_server::pyroscope::SEPARATOR_BYTES;

fn env(server: Option<&str>) -> PyroscopeEnv {
    PyroscopeEnv {
        server: server.map(String::from),
        app_name: None,
        pod_name: Some("p1".to_string()),
        hostname: Some("h1".to_string()),
        node_name: Some("n1".to_string()),
    }
}

fn pusher(server: &str) -> Pusher {
    Pusher::from_env(env(Some(server))).unwrap()
}

fn rests(step: &PusherStep) -> bool {
    matches!(step.action, PusherAction::Sleep { secs: 60 })
}

#[test]
fn no_server_no_pusher() {
    assert!(Pusher::from_env(env(None)).is_none());
    assert!(Pusher::from_env(env(Some(""))).is_none());
}

#[test]
fn push_url_carries_name_span_and_format() {
    let url = pusher("http://pyroscope:4040").push_url(Some(100));
    assert_eq!(
        url.unwrap(),
        "http://pyroscope:4040/ingest?name=frontend%7Bpod%3Dp1%2Cnode%3Dn1%7D&from=40&until=100&format=pprof"
    );
}

#[test]
fn span_is_cut_off_at_the_epoch() {
    let url = pusher("http://pyroscope:4040").push_url(Some(PUSH_INTERVAL_SECS - 1)).unwrap();
    assert!(url.contains("&from=0&until=59&"));
    let url = pusher("http://pyroscope:4040").push_url(None).unwrap();
    assert!(url.contains("&from=0&until=0&"));
}

#[test]
fn query_and_fragment_of_the_server_are_kept() {
    let url = pusher("http://h/?tenant=a").push_url(Some(60)).unwrap();
    assert!(url.starts_with("http://h/?tenant=a/ingest&name=frontend"));
    let url = pusher("http://h/#f").push_url(Some(60)).unwrap();
    assert!(url.starts_with("http://h/?name=frontend"));
    assert!(url.ends_with("&format=pprof#f/ingest"));
}

#[test]
fn names_have_defaults() {
    let env = PyroscopeEnv {
        server: Some("http://h".to_string()),
        app_name: Some("api".to_string()),
        pod_name: None,
        hostname: Some("h1".to_string()),
        node_name: None,
    };
    let url = Pusher::from_env(env).unwrap().push_url(Some(60)).unwrap();
    assert!(url.contains("?name=api%7Bpod%3Dh1%2Cnode%3Dunknown%7D&"));
    let env = PyroscopeEnv {
        server: Some("http://h".to_string()),
        app_name: None,
        pod_name: None,
        hostname: None,
        node_name: None,
    };
    let url = Pusher::from_env(env).unwrap().push_url(Some(60)).unwrap();
    assert!(url.contains("?name=frontend%7Bpod%3Dunknown%2Cnode%3Dunknown%7D&"));
}

#[test]
fn only_an_active_profiler_is_asked() {
    let mut pusher = pusher("http://h");
    assert!(rests(&pusher.step(PusherEvent::Woke(ProfilerStatus::Unavailable))));
    assert!(rests(&pusher.step(PusherEvent::Woke(ProfilerStatus::Inactive))));
    let step = pusher.step(PusherEvent::Woke(ProfilerStatus::Active));
    assert!(matches!(step.action, PusherAction::Dump));
    assert!(step.warning.is_none());
}

#[test]
fn failed_dumps_are_always_logged() {
    let mut pusher = pusher("http://h");
    for _ in 0..2 {
        let step = pusher.step(PusherEvent::DumpFailed("no space".to_string()));
        assert_eq!(step.warning.as_deref(), Some("pyroscope pusher: dump_pprof failed: no space"));
        assert!(rests(&step));
    }
}

#[test]
fn dumped_profile_is_posted() {
    let mut pusher = pusher("http://h");
    let url = pusher.push_url(Some(90)).unwrap();
    let step = pusher.step(PusherEvent::Dumped { profile: vec![1, 2, 3], now: Some(90) });
    match step.action {
        PusherAction::Post { url: own, body } => {
            assert_eq!(own, url);
            assert_eq!(body, vec![1, 2, 3]);
        }
        _ => panic!("not posted"),
    }
    assert!(step.warning.is_none());
}

#[test]
fn bad_server_stops_the_pusher() {
    let mut pusher = pusher("not a url");
    let step = pusher.step(PusherEvent::Dumped { profile: vec![1], now: Some(90) });
    assert!(matches!(step.action, PusherAction::Stop));
    assert_eq!(step.warning.as_deref(), Some("pyroscope pusher: invalid PYROSCOPE_URL: not a url"));
}

#[test]
fn url_decides_what_follows_a_dump() {
    let mut pusher = pusher("http://h");
    let event = PusherEvent::Dumped { profile: vec![7], now: None };
    let step = pusher.step_to(event, Some("u".to_string()));
    assert!(matches!(step.action, PusherAction::Post { url, body } if url == "u" && body == [7]));
    let event = PusherEvent::Dumped { profile: vec![7], now: None };
    let step = pusher.step_to(event, None);
    assert!(matches!(step.action, PusherAction::Stop));
}

#[test]
fn outage_is_logged_once() {
    let mut pusher = pusher("http://h");
    let step = pusher.step(PusherEvent::SendFailed("refused".to_string()));
    assert_eq!(step.warning.as_deref(), Some("pyroscope pusher: ingest failed: refused"));
    assert!(rests(&step));
    let step = pusher.step(PusherEvent::SendFailed("refused".to_string()));
    assert!(step.warning.is_none());
    pusher.step(PusherEvent::Woke(ProfilerStatus::Active));
    let step = pusher.step(PusherEvent::Answered { code: 500, status: "500 x".to_string() });
    assert!(step.warning.is_none());
    assert!(rests(&step));
}

#[test]
fn recovery_is_noticed() {
    let mut pusher = pusher("http://h");
    pusher.step(PusherEvent::SendFailed("refused".to_string()));
    let step = pusher.step(PusherEvent::Answered { code: 299, status: "299".to_string() });
    assert!(step.warning.is_none() && rests(&step));
    let status = "404 Not Found".to_string();
    let step = pusher.step(PusherEvent::Answered { code: 404, status });
    assert_eq!(step.warning.as_deref(), Some("pyroscope pusher: ingest returned 404 Not Found"));
}

#[test]
fn only_codes_from_200_to_299_are_success() {
    for (code, logged) in [(199, true), (200, false), (299, false), (300, true)] {
        let mut pusher = pusher("http://h");
        let step = pusher.step(PusherEvent::Answered { code, status: code.to_string() });
        assert_eq!(step.warning.is_some(), logged);
    }
}

#[test]
fn length_of_the_url_is_checked() {
    assert!(env(None).check());
    assert!(env(Some("http://h")).check());
    let params = "frontend{pod=p1,node=n1}".len() as u64 + OTHER_PARAM_CHARS;
    let room = u32::MAX as u64 - SEPARATOR_BYTES - PARAM_CHAR_BYTES * params;
    let longest = (room / INPUT_CHAR_BYTES) as usize - "/ingest".len();
    let spare = (room % INPUT_CHAR_BYTES / PARAM_CHAR_BYTES) as usize;
    let mut long = env(Some("x".repeat(longest).as_str()));
    assert!(long.check());
    long.node_name = Some("x".repeat(2 + spare));
    assert!(long.check());
    long.node_name = Some("x".repeat(3 + spare));
    assert!(!long.check());
    assert!(!env(Some("x".repeat(longest + 1).as_str())).check());
}

#[test]
fn a_profile_is_pushed_every_minute() {
    assert_eq!(PUSH_INTERVAL_SECS, 60);
    let mut pusher = pusher("http://h");
    let mut action = PusherAction::rest();
    let mut slept = 0;
    let mut posts = 0;
    for _ in 0..10 {
        let event = match action {
            PusherAction::Sleep { secs } => {
                slept += secs;
                PusherEvent::Woke(ProfilerStatus::Active)
            }
            PusherAction::Dump => PusherEvent::Dumped { profile: vec![], now: Some(slept) },
            PusherAction::Post { .. } => {
                posts += 1;
                assert!(posts <= slept / PUSH_INTERVAL_SECS);
                PusherEvent::Answered { code: 200, status: "200 OK".to_string() }
            }
            PusherAction::Stop => panic!("stopped"),
        };
        action = pusher.step(event).action;
    }
    assert_eq!(posts, 3);
}

#[test]
fn first_tick_posts_the_profile() {
    let env = PyroscopeEnv {
        server: Some("http://p:4040".to_string()),
        app_name: None,
        pod_name: Some("a".to_string()),
        hostname: Some("h".to_string()),
        node_name: None,
    };
    let mut pusher = Pusher::from_env(env).unwrap();
    let step = pusher.step(PusherEvent::Woke(ProfilerStatus::Active));
    assert!(matches!(step.action, PusherAction::Dump));
    let step = pusher.step(PusherEvent::Dumped { profile: vec![1, 2, 3], now: Some(1000) });
    let (url, body) = match step.action {
        PusherAction::Post { url, body } => (url::Url::parse(&url).unwrap(), body),
        _ => panic!("not posted"),
    };
    assert_eq!(body, vec![1, 2, 3]);
    assert!(url.as_str().starts_with("http://p:4040/ingest?"));
    let pairs: Vec<(String, String)> = url.query_pairs().into_owned().collect();
    let expected = [
        ("name", "frontend{pod=a,node=unknown}"),
        ("from", "940"),
        ("until", "1000"),
        ("format", "pprof"),
    ];
    assert_eq!(pairs, expected.map(|(name, value)| (name.to_string(), value.to_string())));
}

#[test]
fn each_outage_is_logged_at_its_beginning() {
    let mut pusher = pusher("http://h");
    let mut logged = Vec::new();
    for code in [200, 500, 503, 200, 500, 500, 204, 404] {
        let step = pusher.step(PusherEvent::Answered { code, status: code.to_string() });
        logged.push(step.warning.is_some());
    }
    assert_eq!(logged, [false, true, false, false, true, false, false, true]);
}
