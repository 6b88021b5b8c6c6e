use discord_tui::http::{
    channels_url, load_history, make_fallback_stamp, messages_url, rejection_text, report_send,
    retain_named_channels, send_url, typing_url, SendOutcome,
};
use discord_tui::models::{AppEvent, Channel, DiscordApiAuthor, DiscordApiMessage, MessageStatus, NonceValue};

#[test]
fn urls() {
    assert_eq!(channels_url("9"), "https://discord.com/api/v10/guilds/9/channels");
    assert_eq!(messages_url("7", 50), "https://discord.com/api/v10/channels/7/messages?limit=50");
    assert_eq!(typing_url("7"), "https://discord.com/api/v10/channels/7/typing");
    assert_eq!(send_url("7"), "https://discord.com/api/v10/channels/7/messages");
}

#[test]
fn unnamed_channels_are_dropped() {
    let c = |id: &str, name: &str| Channel { id: id.to_string(), name: name.to_string() };
    let kept = retain_named_channels(vec![c("1", "a"), c("2", ""), c("3", "b")]);
    let ids: Vec<&str> = kept.iter().map(|c| c.id.as_str()).collect();
    assert_eq!(ids, vec!["1", "3"]);
}

fn api(id: &str, nonce: Option<NonceValue>, ts: &str, global: Option<&str>) -> DiscordApiMessage {
    DiscordApiMessage {
        id: id.to_string(),
        nonce,
        content: format!("c{}", id),
        author: DiscordApiAuthor { username: "user".to_string(), global_name: global.map(|s| s.to_string()) },
        timestamp: ts.to_string(),
    }
}

#[test]
fn history_is_oldest_first() {
    let page = vec![
        api("3", Some(NonceValue::Text("n3".to_string())), "2024-01-02T03:04:05.678+00:00", Some("G")),
        api("2", Some(NonceValue::Number("12".to_string())), "garbage-but-long-enough-x", None),
        api("1", Some(NonceValue::Other), "short", None),
        api("0", None, "", None),
    ];
    let feed = load_history(&page).unwrap();
    assert_eq!(feed.len(), 4);
    assert_eq!(feed[0].nonce, "0");
    assert_eq!(feed[0].timestamp, "");
    assert_eq!(feed[1].nonce, "1");
    assert_eq!(feed[1].timestamp, "short");
    assert_eq!(feed[2].nonce, "12");
    assert_eq!(feed[2].timestamp, "-long-en");
    assert_eq!(feed[2].author, "user");
    assert_eq!(feed[3].nonce, "n3");
    assert_eq!(feed[3].author, "G");
    assert_eq!(feed[3].content, "c3");
    assert_eq!(feed[3].timestamp.len(), 12);
    assert!(feed.iter().all(|m| m.status == MessageStatus::Delivered));
}

#[test]
fn fallback_stamp_cuts_bytes() {
    assert_eq!(make_fallback_stamp("2024-01-02 03:04:05Z"), Some("03:04:05".to_string()));
    assert_eq!(make_fallback_stamp("abc"), Some("abc".to_string()));
    assert_eq!(make_fallback_stamp("0123456789ééééé"), None);
    assert_eq!(make_fallback_stamp("0123456789aébcdefgh"), Some("ébcdefg".to_string()));
}

#[test]
fn rejection_details() {
    assert_eq!(rejection_text(r#"{"message": "Missing Access", "code": 50001}"#), "Missing Access, code: 50001");
    assert_eq!(rejection_text("Rejected"), "Rejected");
    assert_eq!(rejection_text("  {\"x\"}\u{7}  "), "x");
    let long = "a".repeat(100);
    assert_eq!(rejection_text(&long).len(), 80);
}

#[test]
fn send_reports() {
    let l = "01:02:03.004".to_string();
    let ok = report_send("n".to_string(), SendOutcome::Accepted, &l);
    assert!(matches!(&ok[..], [AppEvent::MessageSent { nonce, timestamp }] if nonce == "n" && timestamp.is_empty()));
    let lost = report_send("n".to_string(), SendOutcome::Unreachable, &l);
    assert!(matches!(&lost[..], [AppEvent::MessageFailed { nonce }] if nonce == "n"));
    let bad = report_send("n".to_string(), SendOutcome::Rejected(None), &l);
    match &bad[..] {
        [AppEvent::MessageSent { nonce, timestamp }, AppEvent::MessageFailed { nonce: n2 }] => {
            assert_eq!(nonce, "n");
            assert_eq!(n2, "n");
            assert_eq!(timestamp, "01:02:03.004 | ❌ Rejected");
        }
        other => panic!("unexpected {:?}", other),
    }
}
