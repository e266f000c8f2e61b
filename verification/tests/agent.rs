use rari_server::gateway::GatewayClient;
use rari_server::gateway::LogLine;
use rari_server::gateway::Request;
use rari_server::gateway::RETRY_SECS;
use rari_server::gateway_agent::GatewayAction;
use rari_server::gateway_agent::GatewayAgent;
use rari_server::gateway_agent::GatewayEvent;
use rari_server::gateway_agent::GatewayStep;

const URL: &str = "ws://g/connect";

fn agent() -> GatewayAgent {
    let client = GatewayClient { ws_url: URL.to_string(), hostname: "h\"1".to_string() };
    let (agent, action) = GatewayAgent::new(client);
    assert!(matches!(action, GatewayAction::Connect { url } if url == URL));
    agent
}

fn step(agent: &mut GatewayAgent, event: GatewayEvent) -> GatewayStep {
    assert!(agent.expects(&event));
    agent.step(event)
}

fn text(text: &str) -> GatewayEvent {
    GatewayEvent::Text(text.to_string())
}

fn failed(reason: &str) -> GatewayEvent {
    GatewayEvent::Failed(reason.to_string())
}

fn greeting() -> GatewayAgent {
    let mut agent = agent();
    step(&mut agent, GatewayEvent::Connected);
    agent
}

fn registering() -> GatewayAgent {
    let mut agent = greeting();
    let received = step(&mut agent, GatewayEvent::Sent);
    assert!(received.log.is_none());
    assert!(matches!(received.action, GatewayAction::Receive));
    agent
}

fn serving() -> GatewayAgent {
    let mut agent = registering();
    step(&mut agent, text("{\"id\":\"c9\"}"));
    agent
}

fn sent(step: GatewayStep) -> String {
    assert!(step.log.is_none());
    match step.action {
        GatewayAction::Send(text) => text,
        _ => panic!("nothing is sent"),
    }
}

fn rests(agent: &GatewayAgent, step: GatewayStep, expected: &str) {
    match step.log {
        Some(LogLine::Warn(line)) => assert_eq!(line, expected),
        _ => panic!("no warning"),
    }
    assert!(matches!(step.action, GatewayAction::Sleep { secs } if secs == RETRY_SECS));
    assert!(agent.expects(&GatewayEvent::Slept));
}

#[test]
fn session_begins_with_registration() {
    let mut agent = agent();
    let hello = sent(step(&mut agent, GatewayEvent::Connected));
    assert_eq!(hello, "{\"hostname\":\"h\\\"1\",\"service\":\"frontend\"}");
    assert!(!agent.expects(&text("{}")));
}

#[test]
fn failed_connection_is_tried_again() {
    let mut agent = agent();
    let end = step(&mut agent, failed("refused"));
    rests(&agent, end, "pprof-gateway connect failed: refused; retrying in 30s");
    let again = step(&mut agent, GatewayEvent::Slept);
    assert!(again.log.is_none());
    assert!(matches!(again.action, GatewayAction::Connect { url } if url == URL));
    let hello = sent(step(&mut agent, GatewayEvent::Connected));
    assert!(hello.contains("frontend"));
}

#[test]
fn registration_that_is_not_sent_ends_the_session() {
    let mut agent = greeting();
    let end = step(&mut agent, failed("reset"));
    rests(&agent, end, "pprof-gateway connect failed: reset; retrying in 30s");
}

#[test]
fn reply_tells_the_connection() {
    for (reply, expected) in
        [("{\"id\":\"c9\"}", "c9"), ("{\"id\":9}", "?"), ("{}", "?"), ("[1]", "?"), ("null", "?")]
    {
        let mut agent = registering();
        let served = step(&mut agent, text(reply));
        let expected = format!("connected to pprof gateway as h\"1 (id={})", expected);
        assert!(matches!(served.log, Some(LogLine::Info(line)) if line == expected));
        assert!(matches!(served.action, GatewayAction::Receive));
    }
}

#[test]
fn id_of_the_reply_is_logged() {
    let served = registering().replied(Ok(Some("c1".to_string())));
    assert!(matches!(served.log, Some(LogLine::Info(line))
        if line == "connected to pprof gateway as h\"1 (id=c1)"));
    let served = registering().replied(Ok(None));
    assert!(matches!(served.log, Some(LogLine::Info(line))
        if line == "connected to pprof gateway as h\"1 (id=?)"));
    let mut agent = registering();
    let end = agent.replied(Err("x".to_string()));
    rests(&agent, end, "pprof-gateway connect failed: x; retrying in 30s");
}

#[test]
fn reply_that_is_not_json_ends_the_session() {
    let reason = serde_json::from_str::<serde_json::Value>("hello").unwrap_err().to_string();
    let mut agent = registering();
    let end = step(&mut agent, text("hello"));
    let expected = format!("pprof-gateway connect failed: {}; retrying in 30s", reason);
    rests(&agent, end, &expected);
}

#[test]
fn missing_reply_ends_the_session() {
    for event in [GatewayEvent::Other, GatewayEvent::Closed, failed("x")] {
        let mut agent = registering();
        let end = step(&mut agent, event);
        let expected = "pprof-gateway connect failed: no registration reply; retrying in 30s";
        rests(&agent, end, expected);
    }
}

#[test]
fn session_ends_with_its_connection() {
    let mut agent = serving();
    let end = step(&mut agent, GatewayEvent::Closed);
    assert!(matches!(end.log, Some(LogLine::Info(line))
        if line == "pprof-gateway session closed; reconnecting"));
    assert!(matches!(end.action, GatewayAction::Sleep { secs: 30 }));
    let mut agent = serving();
    let end = step(&mut agent, failed("reset"));
    rests(&agent, end, "pprof-gateway connect failed: reset; retrying in 30s");
}

#[test]
fn answer_that_is_not_sent_ends_the_session() {
    let mut agent = serving();
    sent(step(&mut agent, text("{\"type\":\"statsviz_start\"}")));
    let end = step(&mut agent, failed("reset"));
    rests(&agent, end, "pprof-gateway connect failed: reset; retrying in 30s");
}

#[test]
fn what_is_no_request_is_ignored() {
    let mut agent = serving();
    assert!(matches!(step(&mut agent, GatewayEvent::Other).action, GatewayAction::Receive));
    for frame in [
        "hello",
        "[]",
        "{}",
        "{\"id\":\"1\"}",
        "{\"url\":\"/debug/pprof/heap\"}",
        "{\"id\":1,\"url\":\"/debug/pprof/heap\"}",
        "{\"id\":\"1\",\"url\":null}",
        "{\"type\":\"other\"}",
    ] {
        let ignored = step(&mut agent, text(frame));
        assert!(ignored.log.is_none());
        assert!(matches!(ignored.action, GatewayAction::Receive));
    }
}

#[test]
fn heap_request_is_answered_with_its_dump() {
    for url in ["/debug/pprof/heap", "/debug/pprof/heap?gc=1?x"] {
        let mut agent = serving();
        let frame = format!("{{\"id\":\"r1\",\"url\":\"{}\"}}", url);
        assert!(matches!(step(&mut agent, text(&frame)).action, GatewayAction::Dump));
        assert!(!agent.expects(&text(&frame)));
        let answer = sent(step(&mut agent, GatewayEvent::Dumped(Ok(vec![0x4d, 0x61]))));
        assert_eq!(
            answer,
            "{\"body\":\"TWE=\",\"content_type\":\"application/octet-stream\",\"error\":\"\",\
             \"headers\":{},\"id\":\"r1\",\"status_code\":200}"
        );
    }
}

#[test]
fn other_profiles_are_not_found() {
    let mut agent = serving();
    let frame = "{\"id\":\"r\\n3\",\"url\":\"/debug/pprof/profile?seconds=5\"}";
    assert_eq!(
        sent(step(&mut agent, text(frame))),
        "{\"body\":\"\",\"content_type\":\"\",\"error\":\"profile /debug/pprof/profile not \
         supported by rari (heap only)\",\"headers\":{},\"id\":\"r\\n3\",\"status_code\":404}"
    );
}

#[test]
fn live_view_is_turned_down() {
    let mut agent = serving();
    let frame = "{\"type\":\"statsviz_start\",\"id\":\"s1\",\"url\":\"/x\"}";
    assert_eq!(
        sent(step(&mut agent, text(frame))),
        "{\"error\":\"statsviz not supported by rari\",\"id\":\"s1\",\"type\":\"statsviz_error\"}"
    );
    step(&mut agent, GatewayEvent::Sent);
    assert_eq!(
        sent(step(&mut agent, text("{\"type\":\"statsviz_start\"}"))),
        "{\"error\":\"statsviz not supported by rari\",\"id\":\"\",\"type\":\"statsviz_error\"}"
    );
}

#[test]
fn request_decides_what_follows() {
    let request = Request {
        kind: None,
        id: Some("1".to_string()),
        url: Some("/debug/pprof/heap".to_string()),
    };
    assert!(matches!(serving().requested(Ok(request)).action, GatewayAction::Dump));
    assert!(matches!(serving().requested(Err("x".to_string())).action, GatewayAction::Receive));
}

#[test]
fn each_request_is_answered_once_and_in_order() {
    let mut agent = serving();
    let mut ids = Vec::new();
    for (frame, dump) in [
        ("{\"id\":\"a\",\"url\":\"/x\"}", None),
        ("not json", None),
        ("{\"id\":\"b\",\"url\":\"/debug/pprof/heap\"}", Some(Err("off".to_string()))),
        ("{\"id\":\"c\",\"type\":\"statsviz_start\"}", None),
        ("{\"id\":\"d\",\"url\":\"/debug/pprof/heap\"}", Some(Ok(vec![1]))),
    ] {
        let mut next = step(&mut agent, text(frame));
        if let GatewayAction::Dump = next.action {
            next = step(&mut agent, GatewayEvent::Dumped(dump.unwrap()));
        }
        if let GatewayAction::Send(answer) = next.action {
            let value: serde_json::Value = serde_json::from_str(&answer).unwrap();
            ids.push(value.get("id").unwrap().as_str().unwrap().to_string());
            next = step(&mut agent, GatewayEvent::Sent);
        }
        assert!(matches!(next.action, GatewayAction::Receive));
    }
    assert_eq!(ids, ["a", "b", "c", "d"]);
}
