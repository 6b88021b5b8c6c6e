//! The REST side: request addresses, what is kept of the replies, and what
//! the outcome of a send turns into.

use vstd::prelude::*;
use vstd::string::*;
use vstd::utf8::{decode_utf8, encode_utf8, encode_utf8_decode_utf8, is_char_boundary};

use crate::clock::is_clock_label;
use crate::models::{
    messages_view, AppEvent, AppEventView, Channel, DiscordApiMessage, DiscordMessage, MessageStatus,
    MessageView, NonceValue,
};
use crate::text::{
    char_is_control, decimal, find, first_occurrence_from, lemma_first_occurrence_valid, is_control, owned, push_char, push_decimal,
    trim, trimmed,
};

verus! {

/// Address listing the servers of the user.
pub fn guilds_url() -> (r: &'static str)
    ensures
        r@ == "https://discord.com/api/v10/users/@me/guilds"@,
{
    "https://discord.com/api/v10/users/@me/guilds"
}

/// Address pinged to keep connections to the API warm.
pub fn keepalive_url() -> (r: &'static str)
    ensures
        r@ == "https://discord.com/api/v10/gateway"@,
{
    "https://discord.com/api/v10/gateway"
}

/// Seconds between keep-alive pings.
pub fn keepalive_period_secs() -> (r: u64)
    ensures
        r == 10,
{
    10
}

/// Number of history messages fetched when a channel opens.
pub fn history_limit() -> (r: u32)
    ensures
        r == 50,
{
    50
}

pub open spec fn api_base() -> Seq<char> {
    "https://discord.com/api/v10/"@
}

pub open spec fn channels_url_spec(server_id: Seq<char>) -> Seq<char> {
    api_base() + "guilds/"@ + server_id + "/channels"@
}

pub open spec fn messages_url_spec(channel_id: Seq<char>, limit: u32) -> Seq<char> {
    api_base() + "channels/"@ + channel_id + "/messages?limit="@ + decimal(limit as nat)
}

pub open spec fn typing_url_spec(channel_id: Seq<char>) -> Seq<char> {
    api_base() + "channels/"@ + channel_id + "/typing"@
}

pub open spec fn send_url_spec(channel_id: Seq<char>) -> Seq<char> {
    api_base() + "channels/"@ + channel_id + "/messages"@
}

fn base_with(part: &str) -> (r: String)
    ensures
        r@ == api_base() + part@,
{
    let mut s: String = owned("https://discord.com/api/v10/");
    s.append(part);
    s
}

/// Address listing the channels of a server.
pub fn channels_url(server_id: &str) -> (r: String)
    ensures
        r@ == channels_url_spec(server_id@),
{
    let mut s: String = base_with("guilds/");
    s.append(server_id);
    s.append("/channels");
    s
}

/// Address of a channel's latest `limit` messages.
pub fn messages_url(channel_id: &str, limit: u32) -> (r: String)
    ensures
        r@ == messages_url_spec(channel_id@, limit),
{
    let mut s: String = base_with("channels/");
    s.append(channel_id);
    s.append("/messages?limit=");
    push_decimal(&mut s, limit as u64);
    s
}

/// Address that shows the user as typing in a channel.
pub fn typing_url(channel_id: &str) -> (r: String)
    ensures
        r@ == typing_url_spec(channel_id@),
{
    let mut s: String = base_with("channels/");
    s.append(channel_id);
    s.append("/typing");
    s
}

/// Address that posts a message to a channel.
pub fn send_url(channel_id: &str) -> (r: String)
    ensures
        r@ == send_url_spec(channel_id@),
{
    let mut s: String = base_with("channels/");
    s.append(channel_id);
    s.append("/messages");
    s
}

/// The channel names of a list.
pub open spec fn channel_names(v: Seq<Channel>) -> Seq<Seq<char>> {
    v.map_values(|c: Channel| c.name@)
}

/// The channels with a non-empty name, in order.
pub open spec fn named_channels(v: Seq<Channel>) -> Seq<Channel>
    decreases v.len(),
{
    if v.len() == 0 {
        v
    } else if v.last().name@.len() > 0 {
        named_channels(v.drop_last()).push(v.last())
    } else {
        named_channels(v.drop_last())
    }
}

/// Keeps the channels that have a name.
pub fn retain_named_channels(channels: Vec<Channel>) -> (r: Vec<Channel>)
    ensures
        r@ == named_channels(channels@),
{
    let ghost cv = channels@;
    let mut kept: Vec<Channel> = Vec::new();
    let len: usize = channels.len();
    let mut i: usize = 0;
    assert(cv.take(0) =~= Seq::<Channel>::empty());
    while i < len
        invariant
            len == channels.len(),
            cv == channels@,
            i <= len,
            kept@ == named_channels(cv.take(i as int)),
        decreases len - i,
    {
        assert(cv.take(i as int + 1).drop_last() =~= cv.take(i as int));
        let c: &Channel = &channels[i];
        if c.name.as_str().unicode_len() > 0 {
            kept.push(Channel { id: c.id.clone(), name: c.name.clone() });
        }
        i = i + 1;
    }
    assert(cv.take(len as int) =~= cv);
    kept
}

/// What `str::get(from..to)` gives, as the bytes of the slice: `None` when
/// the range is out of bounds or does not fall on character boundaries.
#[verifier::external_body]
fn str_get<'a>(s: &'a str, from: usize, to: usize) -> (r: Option<&'a str>)
    ensures
        r is Some <==> (from <= to <= s.spec_bytes().len()
            && is_char_boundary(s.spec_bytes(), from as int)
            && is_char_boundary(s.spec_bytes(), to as int)),
        r matches Some(x) ==> x.spec_bytes() == s.spec_bytes().subrange(from as int, to as int),
{
    s.get(from..to)
}

/// Time stamp of a history message whose time does not parse: bytes 11 to
/// 19 of the raw text (the `HH:MM:SS` of an ISO time) when it is at least
/// 19 bytes long, else the raw text. `None` where those bytes do not fall
/// on character boundaries.
pub open spec fn fallback_stamp(ts: Seq<char>) -> Option<Seq<char>> {
    let b = encode_utf8(ts);
    if b.len() < 19 {
        Some(ts)
    } else if is_char_boundary(b, 11) && is_char_boundary(b, 19) {
        Some(decode_utf8(b.subrange(11, 19)))
    } else {
        None
    }
}

pub fn make_fallback_stamp(ts: &str) -> (r: Option<String>)
    ensures
        match r {
            Some(s) => fallback_stamp(ts@) == Some(s@),
            None => fallback_stamp(ts@) is None,
        },
{
    if ts.as_bytes().len() < 19 {
        return Some(owned(ts));
    }
    match str_get(ts, 11, 19) {
        Some(x) => {
            proof {
                encode_utf8_decode_utf8(x@);
            }
            Some(owned(x))
        },
        None => None,
    }
}

/// Whether RFC 3339 parsing accepts the text.
pub uninterp spec fn rfc3339_accepts(ts: Seq<char>) -> bool;

/// `chrono::DateTime::parse_from_rfc3339`, then the time in the machine's
/// time zone (`with_timezone(&Local)`) formatted `%H:%M:%S%.3f`. Whether it
/// parses is a function of the text; the label depends on the time zone
/// and only its shape is stated, as chrono documents the specifiers.
#[verifier::external_body]
fn rfc3339_local_label(ts: &str) -> (r: Option<String>)
    ensures
        r is Some <==> rfc3339_accepts(ts@),
        r matches Some(l) ==> is_clock_label(l@),
{
    match chrono::DateTime::parse_from_rfc3339(ts) {
        Ok(dt) => Some(dt.with_timezone(&chrono::Local).format("%H:%M:%S%.3f").to_string()),
        Err(_) => None,
    }
}

/// The nonce shown for a history message: its nonce text or number, else
/// its id.
pub open spec fn history_nonce(m: DiscordApiMessage) -> Seq<char> {
    match m.nonce {
        Some(NonceValue::Text(s)) => s@,
        Some(NonceValue::Number(n)) => n@,
        _ => m.id@,
    }
}

/// The feed entry of a history message, given the local time label of its
/// time stamp (`None` where the stamp does not parse). `None` where the
/// fallback stamp cannot be cut.
pub open spec fn history_entry(m: DiscordApiMessage, label: Option<Seq<char>>) -> Option<MessageView> {
    let stamp = match label {
        Some(l) => Some(l),
        None => fallback_stamp(m.timestamp@),
    };
    match stamp {
        Some(t) => Some(MessageView {
            nonce: history_nonce(m),
            author: match m.author.global_name {
                Some(g) => g@,
                None => m.author.username@,
            },
            content: m.content@,
            timestamp: t,
            status: MessageStatus::Delivered,
        }),
        None => None,
    }
}

/// The feed built from a history page (newest first) and the labels of its
/// stamps: oldest first; `None` if some entry cannot be built.
pub open spec fn history_feed(msgs: Seq<DiscordApiMessage>, labels: Seq<Option<Seq<char>>>) -> Option<Seq<MessageView>>
    decreases msgs.len(),
{
    if msgs.len() == 0 || labels.len() != msgs.len() {
        if msgs.len() == 0 && labels.len() == 0 { Some(Seq::empty()) } else { None }
    } else {
        match history_feed(msgs.drop_first(), labels.drop_first()) {
            Some(rest) => match history_entry(msgs[0], labels[0]) {
                Some(e) => Some(rest.push(e)),
                None => None,
            },
            None => None,
        }
    }
}

pub open spec fn opt_texts(v: Seq<Option<String>>) -> Seq<Option<Seq<char>>> {
    v.map_values(|o: Option<String>| match o {
        Some(s) => Some(s@),
        None => None,
    })
}

fn entry_of(m: &DiscordApiMessage, label: &Option<String>) -> (r: Option<DiscordMessage>)
    ensures
        match r {
            Some(e) => history_entry(*m, match label { Some(l) => Some(l@), None => None }) == Some(e@),
            None => history_entry(*m, match label { Some(l) => Some(l@), None => None }) is None,
        },
{
    let stamp: String = match label {
        Some(l) => l.clone(),
        None => match make_fallback_stamp(m.timestamp.as_str()) {
            Some(t) => t,
            None => {
                return None;
            },
        },
    };
    let nonce: String = match &m.nonce {
        Some(NonceValue::Text(s)) => s.clone(),
        Some(NonceValue::Number(n)) => n.clone(),
        _ => m.id.clone(),
    };
    let author: String = match &m.author.global_name {
        Some(g) => g.clone(),
        None => m.author.username.clone(),
    };
    Some(DiscordMessage { nonce, author, content: m.content.clone(), timestamp: stamp, status: MessageStatus::Delivered })
}

/// Builds the feed from a history page and the local labels of its stamps.
pub fn feed_from_history(msgs: &Vec<DiscordApiMessage>, labels: &Vec<Option<String>>) -> (r: Option<Vec<DiscordMessage>>)
    requires
        labels.len() == msgs.len(),
    ensures
        match r {
            Some(v) => history_feed(msgs@, opt_texts(labels@)) == Some(messages_view(v@)),
            None => history_feed(msgs@, opt_texts(labels@)) is None,
        },
{
    let len: usize = msgs.len();
    let mut out: Vec<DiscordMessage> = Vec::new();
    let mut k: usize = len;
    let ghost lv = opt_texts(labels@);
    assert(msgs@.subrange(len as int, len as int) =~= Seq::<DiscordApiMessage>::empty());
    assert(lv.subrange(len as int, len as int) =~= Seq::<Option<Seq<char>>>::empty());
    while k > 0
        invariant
            len == msgs.len(),
            labels.len() == len,
            lv == opt_texts(labels@),
            k <= len,
            history_feed(msgs@.subrange(k as int, len as int), lv.subrange(k as int, len as int))
                == Some(messages_view(out@)),
        decreases k,
    {
        let j: usize = k - 1;
        let ghost tail_m = msgs@.subrange(j as int, len as int);
        let ghost tail_l = lv.subrange(j as int, len as int);
        assert(tail_m.drop_first() =~= msgs@.subrange(k as int, len as int));
        assert(tail_l.drop_first() =~= lv.subrange(k as int, len as int));
        assert(tail_m[0] == msgs@[j as int]);
        assert(tail_l[0] == lv[j as int]);
        match entry_of(&msgs[j], &labels[j]) {
            Some(e) => {
                let ghost before = out@;
                out.push(e);
                assert(messages_view(out@) =~= messages_view(before).push(e@));
            },
            None => {
                proof {
                    assert(history_feed(tail_m, tail_l) is None);
                    lemma_feed_fails_upward(msgs@, lv, j as int);
                }
                return None;
            },
        }
        k = j;
    }
    assert(msgs@.subrange(0, len as int) =~= msgs@);
    assert(lv.subrange(0, len as int) =~= lv);
    Some(out)
}

/// If the feed of a suffix cannot be built, no longer suffix can.
proof fn lemma_feed_fails_upward(msgs: Seq<DiscordApiMessage>, labels: Seq<Option<Seq<char>>>, j: int)
    requires
        0 <= j <= msgs.len(),
        labels.len() == msgs.len(),
        history_feed(msgs.subrange(j, msgs.len() as int), labels.subrange(j, msgs.len() as int)) is None,
    ensures
        history_feed(msgs, labels) is None,
    decreases j,
{
    if j > 0 {
        let tm = msgs.subrange(j - 1, msgs.len() as int);
        let tl = labels.subrange(j - 1, msgs.len() as int);
        assert(tm.drop_first() =~= msgs.subrange(j, msgs.len() as int));
        assert(tl.drop_first() =~= labels.subrange(j, msgs.len() as int));
        lemma_feed_fails_upward(msgs, labels, j - 1);
    } else {
        assert(msgs.subrange(0, msgs.len() as int) =~= msgs);
        assert(labels.subrange(0, msgs.len() as int) =~= labels);
    }
}

/// The local labels of the stamps of a history page.
pub fn history_labels(msgs: &Vec<DiscordApiMessage>) -> (r: Vec<Option<String>>)
    ensures
        r.len() == msgs.len(),
        forall|i: int| 0 <= i < r.len() ==> (#[trigger] r[i] is Some <==> rfc3339_accepts(msgs[i].timestamp@)),
        forall|i: int| 0 <= i < r.len() ==> (#[trigger] r[i] matches Some(l) ==> is_clock_label(l@)),
{
    let mut out: Vec<Option<String>> = Vec::new();
    let len: usize = msgs.len();
    let mut i: usize = 0;
    while i < len
        invariant
            len == msgs.len(),
            i <= len,
            out.len() == i,
            forall|k: int| 0 <= k < i ==> (#[trigger] out[k] is Some <==> rfc3339_accepts(msgs[k].timestamp@)),
            forall|k: int| 0 <= k < i ==> (#[trigger] out[k] matches Some(l) ==> is_clock_label(l@)),
        decreases len - i,
    {
        out.push(rfc3339_local_label(msgs[i].timestamp.as_str()));
        i = i + 1;
    }
    out
}

/// Turns a history page (newest first) into feed entries, oldest first.
/// `None` where a stamp that does not parse cannot be cut either.
pub fn load_history(msgs: &Vec<DiscordApiMessage>) -> (r: Option<Vec<DiscordMessage>>)
    ensures
        exists|labels: Seq<Option<Seq<char>>>| {
            &&& labels.len() == msgs.len()
            &&& forall|i: int| 0 <= i < labels.len() ==> (#[trigger] labels[i] is Some <==> rfc3339_accepts(msgs[i].timestamp@))
            &&& forall|i: int| 0 <= i < labels.len() ==> (#[trigger] labels[i] matches Some(l) ==> is_clock_label(l))
            &&& match r {
                Some(v) => history_feed(msgs@, labels) == Some(messages_view(v@)),
                None => history_feed(msgs@, labels) is None,
            }
        },
{
    let labels: Vec<Option<String>> = history_labels(msgs);
    let r = feed_from_history(msgs, &labels);
    let ghost lv = opt_texts(labels@);
    assert(forall|i: int| 0 <= i < lv.len() ==> (#[trigger] lv[i] is Some <==> labels@[i] is Some));
    assert(forall|i: int| 0 <= i < lv.len() ==> (#[trigger] lv[i] matches Some(l) ==> l == labels@[i]->0@));
    r
}


/// Characters kept from the part of an error body after `message":`.
pub open spec fn keep_in_message(c: char) -> bool {
    c != '"' && c != '}' && c != '{'
}

/// Characters kept from an error body without a `message":` part.
pub open spec fn keep_in_body(c: char) -> bool {
    !is_control(c) && keep_in_message(c)
}

/// The characters of `s` that pass the filter (`plain` selects
/// `keep_in_body`, else `keep_in_message`), in order.
pub open spec fn kept_chars(s: Seq<char>, plain: bool) -> Seq<char>
    decreases s.len(),
{
    if s.len() == 0 {
        s
    } else {
        let rest = kept_chars(s.drop_last(), plain);
        let keep = if plain { keep_in_body(s.last()) } else { keep_in_message(s.last()) };
        if keep { rest.push(s.last()) } else { rest }
    }
}

/// The first `n` characters of `s` (all of them if fewer).
pub open spec fn at_most(s: Seq<char>, n: nat) -> Seq<char> {
    if s.len() <= n { s } else { s.take(n as int) }
}

/// The readable part of a rejected send's body: what follows the first
/// `message":` (or the whole body), without quotes and braces (nor control
/// characters, for a whole body), cut to 80 characters and trimmed.
pub open spec fn rejection_detail(raw: Seq<char>) -> Seq<char> {
    let pat = "message\":"@;
    match first_occurrence_from(raw, pat, 0) {
        Some(i) => trim(at_most(kept_chars(raw.subrange(i + pat.len(), raw.len() as int), false), 80)),
        None => trim(at_most(kept_chars(raw, true), 80)),
    }
}

/// Time stamp shown on a rejected message: `"<time> | ❌ <detail>"`.
pub open spec fn rejection_stamp(label: Seq<char>, raw: Seq<char>) -> Seq<char> {
    label + " | ❌ "@ + rejection_detail(raw)
}

/// Filters `s[from..]` and keeps the first 80 characters that pass.
fn keep_first_80(s: &str, from: usize, plain: bool) -> (r: String)
    requires
        from <= s@.len(),
    ensures
        r@ == at_most(kept_chars(s@.subrange(from as int, s@.len() as int), plain), 80),
{
    let n: usize = s.unicode_len();
    let ghost src = s@.subrange(from as int, n as int);
    let mut out: String = String::new();
    let mut i: usize = from;
    assert(src.take(0) =~= Seq::<char>::empty());
    while i < n
        invariant
            n == s@.len(),
            from <= i <= n,
            src == s@.subrange(from as int, n as int),
            out@ == at_most(kept_chars(src.take(i - from), plain), 80),
        decreases n - i,
    {
        let c: char = s.get_char(i);
        let ghost pre = src.take(i - from);
        assert(src.take(i - from + 1).drop_last() =~= pre);
        assert(src[i - from] == c);
        let keep: bool = if plain {
            !char_is_control(c) && c != '"' && c != '}' && c != '{'
        } else {
            c != '"' && c != '}' && c != '{'
        };
        let ghost k = kept_chars(pre, plain);
        if keep {
            assert(kept_chars(src.take(i - from + 1), plain) == k.push(c));
            if out.as_str().unicode_len() < 80 {
                push_char(&mut out, c);
                assert(out@ =~= at_most(k.push(c), 80));
            } else {
                assert(at_most(k.push(c), 80) =~= at_most(k, 80));
            }
        }
        i = i + 1;
    }
    assert(src.take(n - from) =~= src);
    out
}

/// The readable part of a rejected send's body (see `rejection_detail`).
pub fn rejection_text(raw: &str) -> (r: String)
    ensures
        r@ == rejection_detail(raw@),
{
    let pat: &str = "message\":";
    let kept: String = match find(raw, pat) {
        Some(i) => {
            let _n: usize = raw.unicode_len();
            proof { lemma_first_occurrence_valid(raw@, pat@, 0); }
            let plen: usize = pat.unicode_len();
            keep_first_80(raw, i + plen, false)
        },
        None => keep_first_80(raw, 0, true),
    };
    assert(raw@.subrange(0, raw@.len() as int) =~= raw@);
    trimmed(kept.as_str())
}

/// How a send attempt ended.
#[derive(Clone, Debug)]
pub enum SendOutcome {
    /// The server accepted the message.
    Accepted,
    /// The server answered with an error status, and this body if it could
    /// be read.
    Rejected(Option<String>),
    /// No answer came.
    Unreachable,
}

pub open spec fn events_view(v: Seq<AppEvent>) -> Seq<AppEventView> {
    v.map_values(|e: AppEvent| e@)
}

/// The events that report a send's outcome to the chat state: an accepted
/// message is confirmed; a rejected one is confirmed with the rejection as
/// its stamp and then marked failed (the body reads `Rejected` when it could
/// not be read); an unanswered one is marked failed.
pub open spec fn send_report(nonce: Seq<char>, outcome: SendOutcome, label: Seq<char>) -> Seq<AppEventView> {
    match outcome {
        SendOutcome::Accepted => seq![AppEventView::MessageSent { nonce, timestamp: Seq::empty() }],
        SendOutcome::Rejected(body) => {
            let raw = match body {
                Some(b) => b@,
                None => "Rejected"@,
            };
            seq![
                AppEventView::MessageSent { nonce, timestamp: rejection_stamp(label, raw) },
                AppEventView::MessageFailed { nonce },
            ]
        },
        SendOutcome::Unreachable => seq![AppEventView::MessageFailed { nonce }],
    }
}

/// Reports a send's outcome, with `label` the wall-clock time of the answer.
pub fn report_send(nonce: String, outcome: SendOutcome, label: &String) -> (r: Vec<AppEvent>)
    ensures
        events_view(r@) == send_report(nonce@, outcome, label@),
{
    let mut out: Vec<AppEvent> = Vec::new();
    match outcome {
        SendOutcome::Accepted => {
            out.push(AppEvent::MessageSent { nonce, timestamp: String::new() });
        },
        SendOutcome::Rejected(body) => {
            let detail: String = match &body {
                Some(b) => rejection_text(b.as_str()),
                None => rejection_text("Rejected"),
            };
            let mut stamp: String = label.clone();
            stamp.append(" | ❌ ");
            stamp.append(detail.as_str());
            out.push(AppEvent::MessageSent { nonce: nonce.clone(), timestamp: stamp });
            out.push(AppEvent::MessageFailed { nonce });
        },
        SendOutcome::Unreachable => {
            out.push(AppEvent::MessageFailed { nonce });
        },
    }
    assert(events_view(out@) =~= send_report(nonce@, outcome, label@));
    out
}

} // verus!
