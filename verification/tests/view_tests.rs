use discord_tui::models::{DiscordMessage, MessageStatus};
use discord_tui::startup::parse_channel_id;
use discord_tui::view::{
    feed_line, feed_lines, feed_text_rows, feed_title, logout_modal_area, make_meta_text,
    switch_channel_modal_area, switch_channel_prompt, Area,
};

fn m(author: &str, stamp: &str, status: MessageStatus) -> DiscordMessage {
    DiscordMessage {
        nonce: "n".to_string(),
        author: author.to_string(),
        content: "hello".to_string(),
        timestamp: stamp.to_string(),
        status,
    }
}

#[test]
fn meta_texts() {
    assert_eq!(make_meta_text("12:00:00.000 | 15ms", true, true), "12:00:00.000 | 15ms");
    assert_eq!(make_meta_text("12:00:00.000 | 15ms", false, true), "15ms");
    assert_eq!(make_meta_text("12:00:00.000 | 15ms", true, false), "12:00:00.000");
    assert_eq!(make_meta_text("12:00:00.000", true, true), "12:00:00.000");
    assert_eq!(make_meta_text(" | x | y", true, true), "x");
    assert_eq!(make_meta_text("", true, true), "");
}

#[test]
fn feed_line_texts() {
    let me = "me".to_string();
    let a = feed_line(&m("me", "t1 | 3ms", MessageStatus::Sending), &me, true, true);
    assert_eq!(a.header, "me [t1 | 3ms]  [...]");
    assert_eq!(a.body, "  hello");
    assert!(a.own);
    let b = feed_line(&m("you", "", MessageStatus::Failed), &me, true, true);
    assert_eq!(b.header, "you  [❌]");
    assert!(!b.own);
    let c = feed_line(&m("you", "t", MessageStatus::Delivered), &me, false, false);
    assert_eq!(c.header, "you");
    assert_eq!(feed_lines(&vec![m("a", "", MessageStatus::Delivered)], &me, true, true).len(), 1);
}

#[test]
fn titles_and_areas() {
    assert_eq!(feed_title(true, false), " messages [F2: Hide Time | F3: Show Latency | Ctrl+G/F5: Channel | Ctrl+X/F4: Switch Token] ");
    assert_eq!(feed_text_rows(10), 8);
    assert_eq!(feed_text_rows(2), 1);
    assert_eq!(logout_modal_area(80, 24), Area { x: 20, y: 8, width: 40, height: 7 });
    assert_eq!(switch_channel_modal_area(90, 30), Area { x: 15, y: 10, width: 60, height: 7 });
    assert_eq!(switch_channel_prompt("12"), "\n Enter Channel URL / ID:\n > 12\n\n Press [Enter] to Jump | [Esc] Cancel");
}

#[test]
fn channel_ids() {
    assert_eq!(parse_channel_id("https://discord.com/channels/123/456"), Some("456".to_string()));
    assert_eq!(parse_channel_id("456"), Some("456".to_string()));
    assert_eq!(parse_channel_id("https://discord.com/channels/123/"), None);
    assert_eq!(parse_channel_id("abc"), None);
    assert_eq!(parse_channel_id(""), None);
    assert_eq!(parse_channel_id("x/٣4"), Some("٣4".to_string()));
    let id = parse_channel_id("a/b/789").unwrap();
    assert_eq!(parse_channel_id(&id), Some(id.clone()));
}
