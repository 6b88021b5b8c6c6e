use discord_tui::state::AppState;
use discord_tui::models::{routes_to_network, AppEvent};

#[test]
fn clock_label_shape() {
    let c = AppState::new(String::new()).read_clock();
    let b = c.label.as_bytes();
    assert_eq!(b.len(), 12);
    assert_eq!((b[2], b[5], b[8]), (b':', b':', b'.'));
    assert!(c.utc_millis > 1_600_000_000_000);
}

#[test]
fn network_routing() {
    assert!(routes_to_network(&AppEvent::HttpTriggerTyping));
    assert!(routes_to_network(&AppEvent::FetchChannelHistory("1".to_string())));
    assert!(routes_to_network(&AppEvent::HttpSendChat { nonce: String::new(), text: String::new() }));
    assert!(!routes_to_network(&AppEvent::GatewayClosed));
}
