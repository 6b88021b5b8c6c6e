use discord_tui::gateway::{
    decide_gateway, make_heartbeat_frame, make_identify_frame, make_transit_stamp, on_gateway_payload,
    session_active, GatewayAction, GatewayData, GatewayFrame, GatewayPayload, GatewayPhase,
};
use discord_tui::models::{AppEvent, DiscordMessage, MessageStatus};

fn pl(op: u8, t: Option<&str>, d: &str) -> Option<GatewayPayload> {
    Some(GatewayPayload { op, d: d.to_string(), t: t.map(|s| s.to_string()) })
}

fn label() -> String {
    "09:08:07.006".to_string()
}

#[test]
fn hello_frame_is_answered_by_identify() {
    let hello = pl(10, None, r#"{"heartbeat_interval":45000}"#);
    let (phase, action) = on_gateway_payload(GatewayPhase::AwaitingHello, hello, "tok\"en", "1", &vec![], &label(), 0);
    assert_eq!(phase, GatewayPhase::Streaming);
    match action {
        GatewayAction::Identify { heartbeat_ms, frame } => {
            assert_eq!(heartbeat_ms, 45000);
            assert_eq!(
                frame,
                r#"{"d":{"properties":{"$browser":"chrome","$device":"pc","$os":"windows"},"token":"tok\"en"},"op":2}"#
            );
            let v: serde_json::Value = serde_json::from_str(&frame).unwrap();
            assert_eq!(v["d"]["token"], "tok\"en");
        }
        other => panic!("unexpected {:?}", other),
    }
}

#[test]
fn hello_without_interval_uses_default() {
    let (_, action) = on_gateway_payload(GatewayPhase::AwaitingHello, pl(10, None, "null"), "t", "1", &vec![], &label(), 0);
    assert!(matches!(action, GatewayAction::Identify { heartbeat_ms: 41250, .. }));
}

#[test]
fn anything_but_hello_first_closes() {
    for p in [pl(0, Some("READY"), "null"), None, pl(11, None, "{}")] {
        let (phase, action) = on_gateway_payload(GatewayPhase::AwaitingHello, p, "t", "1", &vec![], &label(), 0);
        assert_eq!(phase, GatewayPhase::AwaitingHello);
        assert!(matches!(action, GatewayAction::Close));
    }
}

#[test]
fn ready_names_the_user() {
    let f = pl(0, Some("READY"), r#"{"user":{"global_name":"","username":"ann"}}"#);
    let (_, action) = on_gateway_payload(GatewayPhase::Streaming, f.clone(), "t", "1", &vec![], &label(), 0);
    assert!(matches!(action, GatewayAction::Emit(AppEvent::SetSelfUsername(ref n)) if n == "ann"));
    let g = pl(0, Some("READY"), r#"{"user":{"global_name":"Ann B","username":"ann"}}"#);
    let (_, action) = on_gateway_payload(GatewayPhase::Streaming, g.clone(), "t", "1", &vec![], &label(), 0);
    assert!(matches!(action, GatewayAction::Emit(AppEvent::SetSelfUsername(ref n)) if n == "Ann B"));
    let h = pl(0, Some("READY"), r#"{"user":{}}"#);
    let (_, action) = on_gateway_payload(GatewayPhase::Streaming, h.clone(), "t", "1", &vec![], &label(), 0);
    assert!(matches!(action, GatewayAction::Ignore));
}

#[test]
fn message_create_in_watched_channel() {
    // id 175928847299117063 was created at 1462015105796 ms.
    let f = pl(0, Some("MESSAGE_CREATE"), r#"{"channel_id":"42","id":"175928847299117063","nonce":"n-1","content":"yo","author":{"username":"bob","global_name":"Bobby"},"member":{"nick":""}}"#);
    let (_, action) = on_gateway_payload(GatewayPhase::Streaming, f.clone(), "t", "42", &vec![], &label(), 1462015105800);
    match action {
        GatewayAction::Emit(AppEvent::IncomingMessage(m)) => {
            assert_eq!(m.nonce, "n-1");
            assert_eq!(m.author, "Bobby");
            assert_eq!(m.content, "yo");
            assert_eq!(m.timestamp, "09:08:07.006 | 4ms");
            assert_eq!(m.status, MessageStatus::Delivered);
        }
        other => panic!("unexpected {:?}", other),
    }
    let shown = vec![DiscordMessage {
        nonce: "n-1".to_string(),
        author: "x".to_string(),
        content: "y".to_string(),
        timestamp: "z".to_string(),
        status: MessageStatus::Sending,
    }];
    let (_, action) = on_gateway_payload(GatewayPhase::Streaming, f.clone(), "t", "42", &shown, &label(), 0);
    assert!(matches!(action, GatewayAction::Ignore));
    let (_, action) = on_gateway_payload(GatewayPhase::Streaming, f.clone(), "t", "43", &vec![], &label(), 0);
    assert!(matches!(action, GatewayAction::Ignore));
}

#[test]
fn author_priority() {
    let f = pl(0, Some("MESSAGE_CREATE"), r#"{"channel_id":"1","member":{"nick":"Nick"},"author":{"username":"u","global_name":"G"}}"#);
    let (_, a) = on_gateway_payload(GatewayPhase::Streaming, f.clone(), "t", "1", &vec![], &label(), 0);
    assert!(matches!(a, GatewayAction::Emit(AppEvent::IncomingMessage(ref m)) if m.author == "Nick" && m.nonce.is_empty() && m.content.is_empty()));
    let g = pl(0, Some("MESSAGE_CREATE"), r#"{"channel_id":"1","author":{}}"#);
    let (_, a) = on_gateway_payload(GatewayPhase::Streaming, g.clone(), "t", "1", &vec![], &label(), 0);
    assert!(matches!(a, GatewayAction::Emit(AppEvent::IncomingMessage(ref m)) if m.author == "Unknown"));
}

#[test]
fn streaming_ignores_other_frames() {
    for p in [None, pl(11, None, "null"), pl(0, Some("TYPING_START"), "{}")] {
        let (phase, action) = on_gateway_payload(GatewayPhase::Streaming, p, "t", "1", &vec![], &label(), 0);
        assert_eq!(phase, GatewayPhase::Streaming);
        assert!(matches!(action, GatewayAction::Ignore));
    }
}

#[test]
fn transit_stamps() {
    let l = label();
    assert_eq!(make_transit_stamp(&Some("175928847299117063".to_string()), &l, 1462015105796), "09:08:07.006 | 0ms");
    assert_eq!(make_transit_stamp(&Some("175928847299117063".to_string()), &l, 1462015105795), "09:08:07.006");
    assert_eq!(make_transit_stamp(&Some("abc".to_string()), &l, 99), "09:08:07.006");
    assert_eq!(make_transit_stamp(&None, &l, 1420070400010), "09:08:07.006 | 10ms");
}

#[test]
fn payload_decoding() {
    let p = pl(0, Some("X"), r#"{"id":"5","heartbeat_interval":3,"nonce":7}"#).unwrap();
    let f = GatewayFrame::of(&p);
    assert_eq!(f.op, 0);
    assert_eq!(f.t.as_deref(), Some("X"));
    assert_eq!(f.d.id.as_deref(), Some("5"));
    assert_eq!(f.d.nonce, None);
    assert_eq!(f.d.heartbeat_interval, Some(3));
    let empty = GatewayData::read("null");
    assert!(empty.id.is_none() && empty.heartbeat_interval.is_none());
    assert!(GatewayData::read("not json").content.is_none());
    assert!(session_active("x") && !session_active(""));
    let (phase, a) = decide_gateway(GatewayPhase::AwaitingHello, None, "t", "1", &vec![], &label(), 0);
    assert_eq!(phase, GatewayPhase::AwaitingHello);
    assert!(matches!(a, GatewayAction::Close));
}

#[test]
fn heartbeat_frame_text() {
    assert_eq!(make_heartbeat_frame(), r#"{"d":null,"op":1}"#);
    assert_eq!(make_identify_frame("a").len(), r#"{"d":{"properties":{"$browser":"chrome","$device":"pc","$os":"windows"},"token":"a"},"op":2}"#.len());
}
