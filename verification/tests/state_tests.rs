use discord_tui::clock::Clock;
use discord_tui::models::{AppEvent, DiscordMessage, KeyCode, KeyPress, MessageStatus, TerminalEvent};
use discord_tui::state::AppState;

fn clock_ns(mono_ns: u64) -> Clock {
    Clock { label: "12:00:00.000".to_string(), utc_nanos: 1_700_000_000_000_000_000, utc_millis: 1_700_000_000_000, mono_ns }
}

fn clock(mono_ms: u64) -> Clock {
    clock_ns(mono_ms * 1_000_000)
}

fn key(code: KeyCode) -> AppEvent {
    AppEvent::Terminal(TerminalEvent::Key(KeyPress { code, ctrl: false, pressed: true }))
}

fn msg(nonce: &str, author: &str) -> DiscordMessage {
    DiscordMessage {
        nonce: nonce.to_string(),
        author: author.to_string(),
        content: "hi".to_string(),
        timestamp: "t".to_string(),
        status: MessageStatus::Delivered,
    }
}

fn fresh() -> AppState {
    let mut st = AppState::new("tok".to_string());
    st.target_channel_id = "42".to_string();
    st
}

#[test]
fn new_state() {
    let st = AppState::new("tok".to_string());
    assert_eq!(st.token, "tok");
    assert_eq!(st.self_username, "You");
    assert_eq!(st.list_state, Some(0));
    assert!(st.messages.is_empty() && st.failed_nonces.is_empty() && st.outbound_timers.is_empty());
    assert_eq!(st.gateway_rtt_ms, None);
    assert_eq!(st.clock_offset_ms, None);
}

#[test]
fn typing_sends_notice_once_per_seven_seconds() {
    let mut st = fresh();
    let out = st.handle_event_at(key(KeyCode::Char('h')), &clock(1000));
    assert!(matches!(out.outbound, Some(AppEvent::HttpTriggerTyping)));
    assert_eq!(st.last_typing_sent, Some(1_000_000_000));
    let out = st.handle_event_at(key(KeyCode::Char('i')), &clock(7999));
    assert!(out.outbound.is_none());
    let out = st.handle_event_at(key(KeyCode::Char('!')), &clock(8000));
    assert!(matches!(out.outbound, Some(AppEvent::HttpTriggerTyping)));
    assert_eq!(st.input_text, "hi!");
}

#[test]
fn no_typing_notice_without_channel() {
    let mut st = AppState::new("tok".to_string());
    let out = st.handle_event_at(key(KeyCode::Char('x')), &clock(0));
    assert!(out.outbound.is_none());
    assert_eq!(st.last_typing_sent, None);
}

#[test]
fn enter_sends_input() {
    let mut st = fresh();
    st.input_text = "hello".to_string();
    let out = st.handle_event_at(key(KeyCode::Enter), &clock(500));
    assert!(!out.quit);
    match out.outbound {
        Some(AppEvent::HttpSendChat { nonce, text }) => {
            assert_eq!(nonce, "n-1700000000000000000");
            assert_eq!(text, "hello");
        }
        other => panic!("unexpected {:?}", other),
    }
    assert_eq!(st.input_text, "");
    let m = st.messages.last().unwrap();
    assert_eq!(m.author, "You");
    assert_eq!(m.content, "hello");
    assert_eq!(m.timestamp, "12:00:00.000 | ...");
    assert_eq!(m.status, MessageStatus::Sending);
    assert_eq!(st.outbound_timers.len(), 1);
    assert_eq!(st.outbound_timers[0].started_ns, 500_000_000);
}

#[test]
fn enter_on_empty_input_does_nothing() {
    let mut st = fresh();
    let out = st.handle_event_at(key(KeyCode::Enter), &clock(1));
    assert!(out.outbound.is_none());
    assert!(st.messages.is_empty());
}

#[test]
fn sent_message_gets_round_trip() {
    let mut st = fresh();
    st.input_text = "x".to_string();
    st.handle_event_at(key(KeyCode::Enter), &clock(1000));
    let nonce = st.messages[0].nonce.clone();
    st.handle_event_at(AppEvent::MessageSent { nonce: nonce.clone(), timestamp: String::new() }, &clock(1234));
    assert_eq!(st.messages[0].status, MessageStatus::Delivered);
    assert_eq!(st.messages[0].timestamp, "12:00:00.000 | 234ms");
    assert!(st.outbound_timers.is_empty());
}

#[test]
fn untimed_confirmation_uses_given_stamp() {
    let mut st = fresh();
    st.messages.push(msg("a", "x"));
    st.handle_event_at(AppEvent::MessageSent { nonce: "a".to_string(), timestamp: "T1".to_string() }, &clock(0));
    assert_eq!(st.messages[0].timestamp, "T1");
    st.handle_event_at(AppEvent::MessageSent { nonce: "a".to_string(), timestamp: String::new() }, &clock(0));
    assert_eq!(st.messages[0].timestamp, "T1");
}

#[test]
fn failure_then_retry_then_success() {
    let mut st = fresh();
    st.input_text = "x".to_string();
    st.handle_event_at(key(KeyCode::Enter), &clock(10));
    let nonce = st.messages[0].nonce.clone();
    st.handle_event_at(AppEvent::MessageFailed { nonce: nonce.clone() }, &clock(20));
    st.handle_event_at(AppEvent::MessageFailed { nonce: nonce.clone() }, &clock(21));
    assert_eq!(st.messages[0].status, MessageStatus::Failed);
    assert_eq!(st.failed_nonces, vec![nonce.clone()]);
    assert!(st.outbound_timers.is_empty());
    let out = st.handle_event_at(key(KeyCode::Tab), &clock(30));
    match out.outbound {
        Some(AppEvent::HttpSendChat { nonce: n, text }) => {
            assert_eq!(n, nonce);
            assert_eq!(text, "x");
        }
        other => panic!("unexpected {:?}", other),
    }
    assert_eq!(st.messages[0].status, MessageStatus::Sending);
    assert_eq!(st.outbound_timers[0].started_ns, 30_000_000);
    st.handle_event_at(AppEvent::MessageSent { nonce: nonce.clone(), timestamp: String::new() }, &clock(45));
    assert_eq!(st.messages[0].status, MessageStatus::Delivered);
    assert_eq!(st.messages[0].timestamp, "12:00:00.000 | 15ms");
    assert!(st.failed_nonces.is_empty());
}

#[test]
fn tab_without_failures_does_nothing() {
    let mut st = fresh();
    let out = st.handle_event_at(key(KeyCode::Tab), &clock(0));
    assert!(out.outbound.is_none());
}

#[test]
fn incoming_messages_are_deduplicated() {
    let mut st = fresh();
    st.handle_event_at(AppEvent::IncomingMessage(msg("n1", "bob")), &clock(0));
    st.handle_event_at(AppEvent::IncomingMessage(msg("n1", "bob")), &clock(0));
    assert_eq!(st.messages.len(), 1);
    st.handle_event_at(AppEvent::IncomingMessage(msg("", "bob")), &clock(0));
    st.handle_event_at(AppEvent::IncomingMessage(msg("", "bob")), &clock(0));
    assert_eq!(st.messages.len(), 3);
    st.handle_event_at(AppEvent::IncomingMessage(msg("err-x", "sys")), &clock(0));
    st.handle_event_at(AppEvent::IncomingMessage(msg("err-x", "sys")), &clock(0));
    assert_eq!(st.messages.len(), 5);
}

#[test]
fn gateway_closed_adds_notice() {
    let mut st = fresh();
    st.handle_event_at(AppEvent::GatewayClosed, &clock(0));
    let m = &st.messages[0];
    assert_eq!(m.nonce, "err-close");
    assert_eq!(m.author, "System");
    assert_eq!(m.content, "⚠️ WebSocket closed. Reconnecting...");
    assert_eq!(m.timestamp, "12:00:00.000");
    assert_eq!(m.status, MessageStatus::Failed);
}

#[test]
fn ctrl_c_quits_and_other_keys_do_not() {
    let mut st = fresh();
    let ctrl_c = AppEvent::Terminal(TerminalEvent::Key(KeyPress { code: KeyCode::Char('c'), ctrl: true, pressed: true }));
    assert!(st.handle_event_at(ctrl_c, &clock(0)).quit);
    let release = AppEvent::Terminal(TerminalEvent::Key(KeyPress { code: KeyCode::Char('c'), ctrl: true, pressed: false }));
    assert!(!st.handle_event_at(release, &clock(0)).quit);
    let ctrl_a = AppEvent::Terminal(TerminalEvent::Key(KeyPress { code: KeyCode::Char('a'), ctrl: true, pressed: true }));
    assert!(!st.handle_event_at(ctrl_a, &clock(0)).quit);
    assert_eq!(st.input_text, "a");
}

#[test]
fn backspace_takes_back_last_char() {
    let mut st = fresh();
    st.input_text = "ab".to_string();
    st.handle_event_at(key(KeyCode::Char('z')), &clock(0));
    st.handle_event_at(key(KeyCode::Backspace), &clock(0));
    assert_eq!(st.input_text, "ab");
    st.input_text = String::new();
    st.handle_event_at(key(KeyCode::Backspace), &clock(0));
    assert_eq!(st.input_text, "");
}

#[test]
fn username_and_clock_offset() {
    let mut st = fresh();
    st.handle_event_at(AppEvent::SetSelfUsername(String::new()), &clock(0));
    assert_eq!(st.self_username, "You");
    st.handle_event_at(AppEvent::SetSelfUsername("ann".to_string()), &clock(0));
    assert_eq!(st.self_username, "ann");
    st.handle_event_at(AppEvent::UpdateGatewayRtt { rtt_ms: 40, offset_ms: -3 }, &clock(0));
    assert_eq!(st.gateway_rtt_ms, Some(40));
    assert_eq!(st.clock_offset_ms, Some(-3));
    st.handle_event_at(AppEvent::UpdateGatewayRtt { rtt_ms: 50, offset_ms: 9 }, &clock(0));
    assert_eq!(st.gateway_rtt_ms, Some(50));
    assert_eq!(st.clock_offset_ms, Some(-3));
    st.handle_event_at(AppEvent::UpdateClockOffset(7), &clock(0));
    assert_eq!(st.clock_offset_ms, Some(7));
}

#[test]
fn unhandled_events_change_nothing() {
    let mut st = fresh();
    st.handle_event_at(AppEvent::LoadChannelHistory(vec![msg("a", "b")]), &clock(0));
    st.handle_event_at(AppEvent::ToggleTimestamp, &clock(0));
    st.handle_event_at(AppEvent::ScrollChat(3), &clock(0));
    assert!(st.messages.is_empty());
}

#[test]
fn handle_event_reads_the_clock() {
    let mut st = fresh();
    st.input_text = "x".to_string();
    let out = st.handle_event(key(KeyCode::Enter));
    assert!(matches!(out.outbound, Some(AppEvent::HttpSendChat { .. })));
    let stamp = &st.messages[0].timestamp;
    assert_eq!(stamp.len(), 12 + " | ...".len());
    assert!(st.messages[0].nonce.starts_with("n-"));
}

#[test]
fn intervals_use_exact_monotonic_time() {
    let mut st = fresh();
    st.handle_event_at(key(KeyCode::Char('a')), &clock_ns(1_000_000_001));
    let early = st.handle_event_at(key(KeyCode::Char('b')), &clock_ns(8_000_000_000));
    assert!(early.outbound.is_none());
    let due = st.handle_event_at(key(KeyCode::Char('c')), &clock_ns(8_000_000_001));
    assert!(matches!(due.outbound, Some(AppEvent::HttpTriggerTyping)));
    st.input_text = "x".to_string();
    st.handle_event_at(key(KeyCode::Enter), &clock_ns(900_000));
    let nonce = st.messages[0].nonce.clone();
    st.handle_event_at(AppEvent::MessageSent { nonce, timestamp: String::new() }, &clock_ns(2_000_000));
    assert_eq!(st.messages[0].timestamp, "12:00:00.000 | 1ms");
}
