use discord_tui::clock::Clock;
use discord_tui::gateway::{on_gateway_payload, GatewayAction, GatewayPayload, GatewayPhase};
use discord_tui::http::{report_send, SendOutcome};
use discord_tui::models::{AppEvent, KeyCode, KeyPress, MessageStatus, TerminalEvent};
use discord_tui::state::AppState;
use discord_tui::view::feed_line;
use std::collections::HashSet;

fn clock(mono_ms: u64, nanos: i64) -> Clock {
    Clock { label: "10:20:30.405".to_string(), utc_nanos: nanos, utc_millis: 0, mono_ns: mono_ms * 1_000_000 }
}

fn key(code: KeyCode) -> AppEvent {
    AppEvent::Terminal(TerminalEvent::Key(KeyPress { code, ctrl: false, pressed: true }))
}

fn send(st: &mut AppState, text: &str, mono: u64, nanos: i64) -> String {
    st.input_text = text.to_string();
    st.handle_event_at(key(KeyCode::Enter), &clock(mono, nanos));
    st.messages.last().unwrap().nonce.clone()
}

#[test]
fn state_stays_well_formed() {
    let mut st = AppState::new("t".to_string());
    st.target_channel_id = "1".to_string();
    let a = send(&mut st, "a", 1, 1);
    let b = send(&mut st, "b", 2, 2);
    for n in [&a, &b, &a, &b] {
        st.handle_event_at(AppEvent::MessageFailed { nonce: n.clone() }, &clock(3, 3));
    }
    st.handle_event_at(key(KeyCode::Tab), &clock(4, 4));
    st.handle_event_at(key(KeyCode::Tab), &clock(5, 5));
    let failed: HashSet<&String> = st.failed_nonces.iter().collect();
    assert_eq!(failed.len(), st.failed_nonces.len());
    let keys: HashSet<&String> = st.outbound_timers.iter().map(|t| &t.nonce).collect();
    assert_eq!(keys.len(), st.outbound_timers.len());
    assert_eq!(st.outbound_timers.len(), 1);
    assert_eq!(st.outbound_timers[0].started_ns, 5_000_000);
}

#[test]
fn messages_are_append_only() {
    let mut st = AppState::new("t".to_string());
    let a = send(&mut st, "first", 1, 7);
    let before: Vec<(String, String, String)> =
        st.messages.iter().map(|m| (m.nonce.clone(), m.author.clone(), m.content.clone())).collect();
    st.handle_event_at(AppEvent::MessageFailed { nonce: a.clone() }, &clock(2, 8));
    st.handle_event_at(AppEvent::MessageSent { nonce: a, timestamp: "x".to_string() }, &clock(3, 9));
    st.handle_event_at(AppEvent::GatewayClosed, &clock(4, 10));
    for (i, (n, au, c)) in before.iter().enumerate() {
        assert_eq!(&st.messages[i].nonce, n);
        assert_eq!(&st.messages[i].author, au);
        assert_eq!(&st.messages[i].content, c);
    }
    assert_eq!(st.messages.len(), 2);
}

#[test]
fn forwarded_message_is_shown() {
    let mut st = AppState::new("t".to_string());
    st.target_channel_id = "5".to_string();
    let f = Some(GatewayPayload {
        op: 0,
        d: r#"{"channel_id":"5","nonce":"zz","content":"hey","author":{"username":"u"}}"#.to_string(),
        t: Some("MESSAGE_CREATE".to_string()),
    });
    let (_, action) = on_gateway_payload(GatewayPhase::Streaming, f.clone(), "t", "5", &st.messages, &"10:20:30.405".to_string(), 0);
    match action {
        GatewayAction::Emit(ev) => {
            st.handle_event_at(ev, &clock(0, 0));
        }
        other => panic!("unexpected {:?}", other),
    }
    assert_eq!(st.messages.len(), 1);
    assert_eq!(st.messages[0].nonce, "zz");
    let (_, again) = on_gateway_payload(GatewayPhase::Streaming, f.clone(), "t", "5", &st.messages, &"x".to_string(), 0);
    assert!(matches!(again, GatewayAction::Ignore));
}

#[test]
fn rejected_send_is_listed() {
    let mut st = AppState::new("t".to_string());
    st.messages.push(discord_tui::models::DiscordMessage {
        nonce: "q".to_string(),
        author: "me".to_string(),
        content: "c".to_string(),
        timestamp: "old".to_string(),
        status: MessageStatus::Sending,
    });
    let events = report_send("q".to_string(), SendOutcome::Rejected(Some(r#"{"message": "Cannot send"}"#.to_string())), &"10:20:30.405".to_string());
    for e in events {
        st.handle_event_at(e, &clock(0, 0));
    }
    assert_eq!(st.messages[0].status, MessageStatus::Failed);
    assert_eq!(st.messages[0].timestamp, "10:20:30.405 | ❌ Cannot send");
    assert_eq!(st.failed_nonces, vec!["q".to_string()]);
}

#[test]
fn round_trip_is_shown_in_the_feed() {
    let mut st = AppState::new("t".to_string());
    let n = send(&mut st, "hello", 100, 1);
    st.handle_event_at(AppEvent::MessageSent { nonce: n, timestamp: String::new() }, &clock(142, 2));
    let me = st.self_username.clone();
    assert_eq!(feed_line(&st.messages[0], &me, true, true).header, "You [10:20:30.405 | 42ms]");
    assert_eq!(feed_line(&st.messages[0], &me, true, false).header, "You [10:20:30.405]");
    assert_eq!(feed_line(&st.messages[0], &me, false, true).header, "You [42ms]");
}
