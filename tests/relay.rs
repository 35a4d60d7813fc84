use relay::allow::{AllowList, DEFAULT_HOST};
use relay::bridge::start_relay;
use relay::headers::{fold_headers, headers_transmittable};
use relay::message::{err, IncomingMessage, OutgoingMessage, ProxyRequest};
use relay::session::{run_session, InboundFrame, Session, SessionAction, SessionEvent};
use relay::upstream::{relay_events, translate, translate_parsed, Relay, UpstreamEvent};
use serde_json::Value;

fn json(text: &str) -> Value {
    serde_json::from_str(text).unwrap()
}

fn pairs(list: &[(&str, &str)]) -> Vec<(String, String)> {
    list.iter().map(|(n, v)| (n.to_string(), v.to_string())).collect()
}

fn request(destination: &str, headers: &[(&str, &str)]) -> ProxyRequest {
    ProxyRequest {
        destination: destination.to_string(),
        headers: pairs(headers),
        body: json("{\"prompt\":\"hi\"}"),
    }
}

fn reason(m: &OutgoingMessage) -> Option<String> {
    match m {
        OutgoingMessage::Error { reason } => Some(reason.clone()),
        OutgoingMessage::Proxy(_) => None,
    }
}

fn data(m: &OutgoingMessage) -> Option<Value> {
    match m {
        OutgoingMessage::Proxy(p) => Some(p.data.clone()),
        OutgoingMessage::Error { .. } => None,
    }
}

/// Stands in for the upstream client: counts the calls that would be made.
struct CountingUpstream {
    calls: usize,
}

impl CountingUpstream {
    fn run(&mut self, allowed: &AllowList, req: &ProxyRequest) -> Vec<OutgoingMessage> {
        match start_relay(allowed, req) {
            Err(m) => vec![m],
            Ok(_) => {
                self.calls += 1;
                Vec::new()
            }
        }
    }
}

#[test]
fn allow_list_matches_exact_strings() {
    let list = AllowList::standard();
    assert!(list.is_permitted(DEFAULT_HOST));
    assert!(!list.is_permitted("https://api.openai.com/v1/completions/"));
    assert!(!list.is_permitted("https://example.com"));
    assert!(!list.is_permitted(""));
    let empty = AllowList::new(Vec::new());
    assert!(!empty.is_permitted(DEFAULT_HOST));
    let two = AllowList::new(vec!["a".to_string(), "b".to_string()]);
    assert!(two.is_permitted("b"));
    assert!(!two.is_permitted("c"));
}

#[test]
fn unknown_host_gives_one_error_and_no_call() {
    let mut upstream = CountingUpstream { calls: 0 };
    let out = upstream.run(&AllowList::standard(), &request("https://example.com", &[]));
    assert_eq!(out.len(), 1);
    assert_eq!(reason(&out[0]).as_deref(), Some("unknown host"));
    assert_eq!(upstream.calls, 0);
}

#[test]
fn invalid_headers_give_one_error_and_no_call() {
    let mut upstream = CountingUpstream { calls: 0 };
    let list = AllowList::standard();
    for bad in [
        &[("bad name", "v")][..],
        &[("x-ok", "line\nbreak")][..],
        &[("", "v")][..],
        &[("x-ok", "fine"), ("caf\u{e9}", "v")][..],
    ] {
        let out = upstream.run(&list, &request(DEFAULT_HOST, bad));
        assert_eq!(out.len(), 1);
        assert_eq!(reason(&out[0]).as_deref(), Some("unknown headers"));
    }
    assert_eq!(upstream.calls, 0);
}

#[test]
fn permitted_request_goes_upstream_with_folded_headers() {
    let mut upstream = CountingUpstream { calls: 0 };
    let list = AllowList::standard();
    let req = request(
        DEFAULT_HOST,
        &[("authorization", "Bearer a"), ("content-type", "application/json"), ("authorization", "Bearer b")],
    );
    assert_eq!(upstream.run(&list, &req).len(), 0);
    assert_eq!(upstream.calls, 1);
    match start_relay(&list, &req) {
        Ok(h) => assert_eq!(
            h,
            pairs(&[("authorization", "Bearer b"), ("content-type", "application/json")])
        ),
        Err(_) => panic!("request refused"),
    }
}

#[test]
fn later_header_replaces_earlier_one() {
    let folded = fold_headers(&pairs(&[("a", "1"), ("b", "2"), ("a", "3"), ("c", "4"), ("b", "5")]));
    assert_eq!(folded, pairs(&[("a", "3"), ("b", "5"), ("c", "4")]));
    assert_eq!(fold_headers(&Vec::new()), Vec::new());
}

#[test]
fn overwritten_invalid_header_is_not_sent() {
    let list = AllowList::standard();
    let req = request(DEFAULT_HOST, &[("x-key", "bad\u{7f}"), ("x-key", "good")]);
    assert!(start_relay(&list, &req).is_ok());
}

#[test]
fn header_validity_follows_http_rules() {
    assert!(headers_transmittable(&pairs(&[("X-Custom_1", "value with\ttab"), ("a!#$%&'*+-.^`|~", "\u{e9}")])));
    assert!(!headers_transmittable(&pairs(&[("a:b", "v")])));
    assert!(!headers_transmittable(&pairs(&[("a", "\r")])));
    assert!(!headers_transmittable(&pairs(&[("a", "\u{7f}")])));
    assert!(headers_transmittable(&Vec::new()));
    let long = "a".repeat(65535);
    assert!(headers_transmittable(&vec![(long.clone(), String::new())]));
    let too_long = "a".repeat(65536);
    assert!(!headers_transmittable(&vec![(too_long, String::new())]));
}

#[test]
fn sentinel_ends_stream() {
    let step = translate("[DONE]");
    assert!(step.stop);
    assert!(step.emit.is_none());
    let step = translate_parsed("[DONE]", Some(json("1")));
    assert!(step.stop && step.emit.is_none());
}

#[test]
fn json_payload_is_relayed() {
    let step = translate("{\"a\":1}");
    assert!(!step.stop);
    assert_eq!(data(&step.emit.unwrap()), Some(json("{\"a\":1}")));
    let step = translate_parsed("anything", Some(json("[1,2]")));
    assert_eq!(data(&step.emit.unwrap()), Some(json("[1,2]")));
}

#[test]
fn non_json_payload_is_unexpected() {
    let step = translate("not-json");
    assert!(!step.stop);
    assert_eq!(reason(&step.emit.unwrap()).as_deref(), Some("unexpected response"));
    let step = translate_parsed("x", None);
    assert_eq!(reason(&step.emit.unwrap()).as_deref(), Some("unexpected response"));
}

#[test]
fn stream_of_two_documents_then_sentinel() {
    let events = vec![
        UpstreamEvent::Opened,
        UpstreamEvent::Message("{\"a\":1}".to_string()),
        UpstreamEvent::Message("{\"a\":2}".to_string()),
        UpstreamEvent::Message("[DONE]".to_string()),
        UpstreamEvent::Message("{\"a\":3}".to_string()),
    ];
    let out = relay_events(&events);
    assert_eq!(out.len(), 2);
    assert_eq!(data(&out[0]), Some(json("{\"a\":1}")));
    assert_eq!(data(&out[1]), Some(json("{\"a\":2}")));
}

#[test]
fn bad_payload_does_not_stop_stream() {
    let events = vec![
        UpstreamEvent::Message("not-json".to_string()),
        UpstreamEvent::Message("{\"a\":2}".to_string()),
        UpstreamEvent::Message("[DONE]".to_string()),
    ];
    let out = relay_events(&events);
    assert_eq!(out.len(), 2);
    assert_eq!(reason(&out[0]).as_deref(), Some("unexpected response"));
    assert_eq!(data(&out[1]), Some(json("{\"a\":2}")));
}

#[test]
fn transport_failure_is_reported_once_and_ends_relay() {
    let events = vec![
        UpstreamEvent::Message("1".to_string()),
        UpstreamEvent::Failed,
        UpstreamEvent::Message("2".to_string()),
        UpstreamEvent::Failed,
    ];
    let out = relay_events(&events);
    assert_eq!(out.len(), 2);
    assert_eq!(data(&out[0]), Some(json("1")));
    assert_eq!(reason(&out[1]).as_deref(), Some("bad response"));
    let mut relay = Relay::new();
    let step = relay.on_event(&UpstreamEvent::Opened);
    assert!(!step.stop && step.emit.is_none());
    let step = relay.on_event(&UpstreamEvent::Failed);
    assert!(step.stop);
    assert_eq!(reason(&step.emit.unwrap()).as_deref(), Some("bad response"));
}

#[test]
fn stream_that_never_opens_ends_silently() {
    let out = relay_events(&vec![UpstreamEvent::Failed, UpstreamEvent::Opened]);
    assert!(out.is_empty());
    let mut relay = Relay::new();
    let step = relay.on_event(&UpstreamEvent::Failed);
    assert!(step.stop && step.emit.is_none());
}

#[test]
fn stream_without_sentinel_relays_everything() {
    let events = vec![
        UpstreamEvent::Message("true".to_string()),
        UpstreamEvent::Opened,
        UpstreamEvent::Message("null".to_string()),
    ];
    let out = relay_events(&events);
    assert_eq!(out.len(), 2);
    assert_eq!(data(&out[1]), Some(Value::Null));
    assert!(relay_events(&Vec::new()).is_empty());
}

#[test]
fn err_builds_error_message() {
    assert_eq!(reason(&err("boom")).as_deref(), Some("boom"));
}

fn proxy_frame(destination: &str) -> SessionEvent {
    SessionEvent::Inbound(InboundFrame::Message(IncomingMessage::Proxy(request(destination, &[]))))
}

fn dispatched(a: &SessionAction) -> Option<String> {
    match a {
        SessionAction::Dispatch(r) => Some(r.destination.clone()),
        _ => None,
    }
}

fn written(a: &SessionAction) -> Option<&OutgoingMessage> {
    match a {
        SessionAction::Write(m) => Some(m),
        _ => None,
    }
}

#[test]
fn undecodable_frame_keeps_session_open() {
    let out = run_session(vec![
        SessionEvent::Inbound(InboundFrame::NotText),
        proxy_frame("https://a"),
    ]);
    assert_eq!(out.len(), 2);
    assert_eq!(
        reason(written(&out[0]).unwrap()).as_deref(),
        Some("could not decode message as text")
    );
    assert_eq!(dispatched(&out[1]).as_deref(), Some("https://a"));
}

#[test]
fn malformed_frame_closes_session() {
    let out = run_session(vec![
        SessionEvent::Inbound(InboundFrame::Malformed),
        proxy_frame("https://a"),
        SessionEvent::Outbound(err("late")),
    ]);
    assert_eq!(out.len(), 2);
    assert_eq!(reason(written(&out[0]).unwrap()).as_deref(), Some("unknown message type"));
    assert!(matches!(out[1], SessionAction::Close));
}

#[test]
fn two_requests_progress_independently() {
    let out = run_session(vec![
        proxy_frame("https://a"),
        SessionEvent::Outbound(err("from a")),
        proxy_frame("https://b"),
        SessionEvent::Outbound(err("from b")),
        SessionEvent::Outbound(err("from a again")),
    ]);
    assert_eq!(out.len(), 5);
    assert_eq!(dispatched(&out[0]).as_deref(), Some("https://a"));
    assert_eq!(reason(written(&out[1]).unwrap()).as_deref(), Some("from a"));
    assert_eq!(dispatched(&out[2]).as_deref(), Some("https://b"));
    assert_eq!(reason(written(&out[3]).unwrap()).as_deref(), Some("from b"));
    assert_eq!(reason(written(&out[4]).unwrap()).as_deref(), Some("from a again"));
}

#[test]
fn transport_fault_is_ignored_and_end_closes() {
    let out = run_session(vec![
        SessionEvent::Inbound(InboundFrame::Skipped),
        SessionEvent::Inbound(InboundFrame::Ended),
        proxy_frame("https://a"),
    ]);
    assert_eq!(out.len(), 1);
    assert!(matches!(out[0], SessionAction::Close));
}

#[test]
fn write_failure_closes_session() {
    let mut s = Session::new();
    assert!(s.is_open());
    let acts = s.handle(SessionEvent::WriteFailed);
    assert_eq!(acts.len(), 1);
    assert!(matches!(acts[0], SessionAction::Close));
    assert!(!s.is_open());
    assert!(s.handle(SessionEvent::Outbound(err("x"))).is_empty());
}
