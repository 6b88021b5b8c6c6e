//! What the screens show, as text: message lines of the feed, the feed's
//! title, and the modal boxes.

use vstd::prelude::*;
use vstd::string::*;

use crate::models::{DiscordMessage, MessageStatus, MessageView};
use crate::text::{find, first_occurrence_from, lemma_first_occurrence_valid, owned, same_text, substring, trim, trimmed};

verus! {

/// The part of `s` before the first `|` (all of `s` if there is none).
pub open spec fn first_segment(s: Seq<char>) -> Seq<char> {
    match first_occurrence_from(s, "|"@, 0) {
        Some(i) => s.take(i),
        None => s,
    }
}

/// The time part of a stamp: its first `|`-separated field, trimmed.
pub open spec fn time_part(stamp: Seq<char>) -> Seq<char> {
    trim(first_segment(stamp))
}

/// The latency part of a stamp: its second `|`-separated field, trimmed
/// (empty if there is none).
pub open spec fn latency_part(stamp: Seq<char>) -> Seq<char> {
    match first_occurrence_from(stamp, "|"@, 0) {
        Some(i) => trim(first_segment(stamp.subrange(i + "|"@.len(), stamp.len() as int))),
        None => Seq::empty(),
    }
}

/// The bracketed meta text of a message: the time and/or the latency, each
/// if shown and not empty, joined by `" | "`.
pub open spec fn meta_text(stamp: Seq<char>, show_time: bool, show_latency: bool) -> Seq<char> {
    let t = time_part(stamp);
    let l = latency_part(stamp);
    let m = if show_time && t.len() > 0 { t } else { Seq::empty() };
    if show_latency && l.len() > 0 {
        (if m.len() > 0 { m + " | "@ } else { m }) + l
    } else {
        m
    }
}

/// The marker after the author of a message not yet delivered.
pub open spec fn status_mark(s: MessageStatus) -> Seq<char> {
    match s {
        MessageStatus::Sending => " [...]"@,
        MessageStatus::Failed => " [❌]"@,
        MessageStatus::Delivered => Seq::empty(),
    }
}

/// The header line of a message: author, bracketed meta text if any, and
/// the status marker if any.
pub open spec fn header_text(m: MessageView, show_time: bool, show_latency: bool) -> Seq<char> {
    let meta = meta_text(m.timestamp, show_time, show_latency);
    let mark = status_mark(m.status);
    m.author
        + (if meta.len() > 0 { " ["@ + meta + "]"@ } else { Seq::empty() })
        + (if mark.len() > 0 { " "@ + mark } else { Seq::empty() })
}

/// One message of the feed as text: its header, its indented body, whether
/// the user wrote it, and its status (which picks the body's color).
#[derive(Clone, Debug)]
pub struct FeedLine {
    pub header: String,
    pub body: String,
    pub own: bool,
    pub status: MessageStatus,
}

pub open spec fn feed_line_of(f: FeedLine, m: MessageView, self_user: Seq<char>, show_time: bool, show_latency: bool) -> bool {
    &&& f.header@ == header_text(m, show_time, show_latency)
    &&& f.body@ == "  "@ + m.content
    &&& f.own == (m.author == self_user)
    &&& f.status == m.status
}

fn first_segment_of(s: &str) -> (r: String)
    ensures
        r@ == first_segment(s@),
{
    let _n: usize = s.unicode_len();
    match find(s, "|") {
        Some(i) => {
            proof { lemma_first_occurrence_valid(s@, "|"@, 0); }
            substring(s, 0, i)
        },
        None => owned(s),
    }
}

fn latency_of(s: &str) -> (r: String)
    ensures
        r@ == latency_part(s@),
{
    let n: usize = s.unicode_len();
    match find(s, "|") {
        Some(i) => {
            proof { lemma_first_occurrence_valid(s@, "|"@, 0); }
            let bar: usize = "|".unicode_len();
            let rest: String = substring(s, i + bar, n);
            let seg: String = first_segment_of(rest.as_str());
            trimmed(seg.as_str())
        },
        None => String::new(),
    }
}

/// The meta text of a stamp (see `meta_text`).
pub fn make_meta_text(stamp: &str, show_time: bool, show_latency: bool) -> (r: String)
    ensures
        r@ == meta_text(stamp@, show_time, show_latency),
{
    let seg: String = first_segment_of(stamp);
    let t: String = trimmed(seg.as_str());
    let l: String = latency_of(stamp);
    let mut m: String = if show_time && t.as_str().unicode_len() > 0 { t } else { String::new() };
    if show_latency && l.as_str().unicode_len() > 0 {
        if m.as_str().unicode_len() > 0 {
            m.append(" | ");
        }
        m.append(l.as_str());
    }
    m
}

fn mark_of(s: MessageStatus) -> (r: &'static str)
    ensures
        r@ == status_mark(s),
{
    match s {
        MessageStatus::Sending => " [...]",
        MessageStatus::Failed => " [❌]",
        MessageStatus::Delivered => {
            proof {
                reveal_strlit("");
            }
            ""
        },
    }
}

/// The feed line of one message.
pub fn feed_line(m: &DiscordMessage, self_user: &String, show_time: bool, show_latency: bool) -> (r: FeedLine)
    ensures
        feed_line_of(r, m@, self_user@, show_time, show_latency),
{
    let meta: String = make_meta_text(m.timestamp.as_str(), show_time, show_latency);
    let mark: &str = mark_of(m.status);
    let mut header: String = m.author.clone();
    if meta.as_str().unicode_len() > 0 {
        header.append(" [");
        header.append(meta.as_str());
        header.append("]");
    }
    if mark.unicode_len() > 0 {
        header.append(" ");
        header.append(mark);
    }
    let mut body: String = owned("  ");
    body.append(m.content.as_str());
    let own: bool = same_text(m.author.as_str(), self_user.as_str());
    let r = FeedLine { header, body, own, status: m.status };
    assert(r.header@ =~= header_text(m@, show_time, show_latency));
    r
}

/// The feed lines of all messages, in order.
pub fn feed_lines(msgs: &Vec<DiscordMessage>, self_user: &String, show_time: bool, show_latency: bool) -> (r: Vec<FeedLine>)
    ensures
        r.len() == msgs.len(),
        forall|i: int| 0 <= i < r.len() ==> feed_line_of(#[trigger] r[i], msgs[i]@, self_user@, show_time, show_latency),
{
    let mut out: Vec<FeedLine> = Vec::new();
    let len: usize = msgs.len();
    let mut i: usize = 0;
    while i < len
        invariant
            len == msgs.len(),
            i <= len,
            out.len() == i,
            forall|k: int| 0 <= k < i ==> feed_line_of(#[trigger] out[k], msgs[k]@, self_user@, show_time, show_latency),
        decreases len - i,
    {
        out.push(feed_line(&msgs[i], self_user, show_time, show_latency));
        i = i + 1;
    }
    out
}

pub open spec fn feed_title_text(show_time: bool, show_latency: bool) -> Seq<char> {
    " messages ["@
        + (if show_time { "F2: Hide Time"@ } else { "F2: Show Time"@ })
        + " | "@
        + (if show_latency { "F3: Hide Latency"@ } else { "F3: Show Latency"@ })
        + " | Ctrl+G/F5: Channel | Ctrl+X/F4: Switch Token] "@
}

/// The title of the message feed.
pub fn feed_title(show_time: bool, show_latency: bool) -> (r: String)
    ensures
        r@ == feed_title_text(show_time, show_latency),
{
    let mut s: String = owned(" messages [");
    s.append(if show_time { "F2: Hide Time" } else { "F2: Show Time" });
    s.append(" | ");
    s.append(if show_latency { "F3: Hide Latency" } else { "F3: Show Latency" });
    s.append(" | Ctrl+G/F5: Channel | Ctrl+X/F4: Switch Token] ");
    s
}

/// Rows of text the feed shows in a pane `height` rows tall (its border
/// takes two).
pub fn feed_text_rows(height: u16) -> (r: usize)
    ensures
        r == if height > 2 { height - 2 } else { 1 },
{
    if height > 2 { (height - 2) as usize } else { 1 }
}

/// A rectangle of the screen.
#[derive(Clone, Copy, Debug, PartialEq, Eq, Structural)]
pub struct Area {
    pub x: u16,
    pub y: u16,
    pub width: u16,
    pub height: u16,
}

/// Where the logout box stands on a `width` by `height` screen.
pub fn logout_modal_area(width: u16, height: u16) -> (r: Area)
    ensures
        r == (Area { x: width / 4, y: height / 3, width: width / 2, height: 7 }),
{
    Area { x: width / 4, y: height / 3, width: width / 2, height: 7 }
}

/// Where the channel-switch box stands on a `width` by `height` screen.
pub fn switch_channel_modal_area(width: u16, height: u16) -> (r: Area)
    requires
        2 * width <= u16::MAX,
    ensures
        r == (Area { x: width / 6, y: height / 3, width: ((2 * width) / 3) as u16, height: 7 }),
{
    Area { x: width / 6, y: height / 3, width: (width * 2) / 3, height: 7 }
}

/// Text of the logout box.
pub fn logout_prompt() -> (r: &'static str)
    ensures
        r@ == "\n Clear saved token and exit?\n\n Press [Y] to confirm or [N/Esc] to cancel."@,
{
    "\n Clear saved token and exit?\n\n Press [Y] to confirm or [N/Esc] to cancel."
}

/// Title of the logout box.
pub fn logout_title() -> (r: &'static str)
    ensures
        r@ == " Logout / Switch Token "@,
{
    " Logout / Switch Token "
}

/// Title of the channel-switch box.
pub fn switch_channel_title() -> (r: &'static str)
    ensures
        r@ == " Jump to Specific Channel "@,
{
    " Jump to Specific Channel "
}

pub open spec fn switch_channel_text(input: Seq<char>) -> Seq<char> {
    "\n Enter Channel URL / ID:\n > "@ + input + "\n\n Press [Enter] to Jump | [Esc] Cancel"@
}

/// Text of the channel-switch box with what was typed so far.
pub fn switch_channel_prompt(input: &str) -> (r: String)
    ensures
        r@ == switch_channel_text(input@),
{
    let mut s: String = owned("\n Enter Channel URL / ID:\n > ");
    s.append(input);
    s.append("\n\n Press [Enter] to Jump | [Esc] Cancel");
    s
}

} // verus!
