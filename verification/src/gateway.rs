//! The gateway session: reading gateway payloads and deciding what each one
//! calls for.

use vstd::prelude::*;
use vstd::string::*;

use crate::json::{field_text, field_u64, json_lookup, json_string_literal, lookup_text, lookup_u64, quote};
use crate::models::{messages_view, AppEvent, AppEventView, DiscordMessage, MessageStatus, MessageView};
use crate::state::first_match;
use crate::text::{decimal, owned, parse_u64, parse_u64_spec, push_decimal, same_text};

verus! {

/// The gateway's address.
pub fn gateway_url() -> (r: &'static str)
    ensures
        r@ == "wss://gateway.discord.gg/?v=10&encoding=json"@,
{
    "wss://gateway.discord.gg/?v=10&encoding=json"
}

/// The gateway session (and its heartbeat) runs while the user has a token.
pub fn session_active(token: &str) -> (r: bool)
    ensures
        r == (token@.len() > 0),
{
    token.unicode_len() > 0
}

/// Heartbeat period used when the hello frame names none.
pub open spec fn default_heartbeat_ms() -> u64 {
    41250
}

/// Seconds to wait before reconnecting after the connection ends.
pub fn reconnect_delay_secs() -> (r: u64)
    ensures
        r == 3,
{
    3
}

/// Milliseconds from the Unix epoch to the Discord epoch (2015-01-01).
pub open spec fn discord_epoch_ms() -> int {
    1420070400000
}

/// The fields of a gateway frame's `d` object that the client reads.
#[derive(Clone, Debug)]
pub struct GatewayData {
    pub heartbeat_interval: Option<u64>,
    pub user_global_name: Option<String>,
    pub user_username: Option<String>,
    pub channel_id: Option<String>,
    pub id: Option<String>,
    pub nonce: Option<String>,
    pub member_nick: Option<String>,
    pub author_global_name: Option<String>,
    pub author_username: Option<String>,
    pub content: Option<String>,
}

/// A gateway payload: opcode, the JSON text of its data, and its event name.
#[derive(Clone, Debug)]
pub struct GatewayPayload {
    pub op: u8,
    /// The `d` value written as JSON (`null` where the payload has none).
    pub d: String,
    pub t: Option<String>,
}

/// A payload with the fields of its data read out.
#[derive(Clone, Debug)]
pub struct GatewayFrame {
    pub op: u8,
    pub t: Option<String>,
    pub d: GatewayData,
}

pub open spec fn opt_text(o: Option<String>) -> Option<Seq<char>> {
    match o {
        Some(s) => Some(s@),
        None => None,
    }
}

/// The string at `pointer` in JSON text `text`.
pub open spec fn text_at(text: Seq<char>, pointer: Seq<char>) -> Option<Seq<char>> {
    field_text(json_lookup(text, pointer))
}

/// `d` holds the fields of the JSON data `text`.
pub open spec fn data_of(d: GatewayData, text: Seq<char>) -> bool {
    &&& d.heartbeat_interval == field_u64(json_lookup(text, "/heartbeat_interval"@))
    &&& opt_text(d.user_global_name) == text_at(text, "/user/global_name"@)
    &&& opt_text(d.user_username) == text_at(text, "/user/username"@)
    &&& opt_text(d.channel_id) == text_at(text, "/channel_id"@)
    &&& opt_text(d.id) == text_at(text, "/id"@)
    &&& opt_text(d.nonce) == text_at(text, "/nonce"@)
    &&& opt_text(d.member_nick) == text_at(text, "/member/nick"@)
    &&& opt_text(d.author_global_name) == text_at(text, "/author/global_name"@)
    &&& opt_text(d.author_username) == text_at(text, "/author/username"@)
    &&& opt_text(d.content) == text_at(text, "/content"@)
}

/// `f` is payload `p` with its data read out.
pub open spec fn frame_of(f: GatewayFrame, p: GatewayPayload) -> bool {
    &&& f.op == p.op
    &&& opt_text(f.t) == opt_text(p.t)
    &&& data_of(f.d, p.d@)
}

fn text_field(text: &str, pointer: &str) -> (r: Option<String>)
    ensures
        opt_text(r) == text_at(text@, pointer@),
{
    lookup_text(text, pointer)
}

impl GatewayData {
    /// Reads the fields the client uses out of the JSON data `d`.
    pub fn read(d: &str) -> (r: GatewayData)
        ensures
            data_of(r, d@),
    {
        GatewayData {
            heartbeat_interval: lookup_u64(d, "/heartbeat_interval"),
            user_global_name: text_field(d, "/user/global_name"),
            user_username: text_field(d, "/user/username"),
            channel_id: text_field(d, "/channel_id"),
            id: text_field(d, "/id"),
            nonce: text_field(d, "/nonce"),
            member_nick: text_field(d, "/member/nick"),
            author_global_name: text_field(d, "/author/global_name"),
            author_username: text_field(d, "/author/username"),
            content: text_field(d, "/content"),
        }
    }
}

impl GatewayFrame {
    /// The payload with the fields of its data read out.
    pub fn of(p: &GatewayPayload) -> (r: GatewayFrame)
        ensures
            frame_of(r, *p),
    {
        let t: Option<String> = match &p.t {
            Some(s) => Some(s.clone()),
            None => None,
        };
        GatewayFrame { op: p.op, t, d: GatewayData::read(p.d.as_str()) }
    }
}

/// The identify frame that logs in with `token`.
pub open spec fn identify_frame(token: Seq<char>) -> Seq<char> {
    "{\"d\":{\"properties\":{\"$browser\":\"chrome\",\"$device\":\"pc\",\"$os\":\"windows\"},\"token\":"@
        + json_string_literal(token) + "},\"op\":2}"@
}

/// The heartbeat frame.
pub open spec fn heartbeat_frame() -> Seq<char> {
    "{\"d\":null,\"op\":1}"@
}

pub fn make_identify_frame(token: &str) -> (r: String)
    ensures
        r@ == identify_frame(token@),
{
    let mut s: String = owned(
        "{\"d\":{\"properties\":{\"$browser\":\"chrome\",\"$device\":\"pc\",\"$os\":\"windows\"},\"token\":",
    );
    let q: String = quote(token);
    s.append(q.as_str());
    s.append("},\"op\":2}");
    s
}

pub fn make_heartbeat_frame() -> (r: String)
    ensures
        r@ == heartbeat_frame(),
{
    owned("{\"d\":null,\"op\":1}")
}

/// The name the READY event gives the user: the display name if it is not
/// empty, else the user name (empty if absent).
pub open spec fn ready_name(d: GatewayData) -> Seq<char> {
    let fallback = match d.user_username {
        Some(u) => u@,
        None => Seq::empty(),
    };
    match d.user_global_name {
        Some(g) => if g@.len() > 0 { g@ } else { fallback },
        None => fallback,
    }
}

/// Author shown for a new message: server nickname, else display name (each
/// if not empty), else user name, else `Unknown`.
pub open spec fn message_author(d: GatewayData) -> Seq<char> {
    let by_name = match d.author_username {
        Some(u) => u@,
        None => "Unknown"@,
    };
    let by_global = match d.author_global_name {
        Some(g) => if g@.len() > 0 { g@ } else { by_name },
        None => by_name,
    };
    match d.member_nick {
        Some(n) => if n@.len() > 0 { n@ } else { by_global },
        None => by_global,
    }
}

/// Milliseconds since the Unix epoch at which the message with snowflake
/// `id` was created.
pub open spec fn snowflake_ms(id: u64) -> int {
    id / 4194304 + discord_epoch_ms()
}

/// Time stamp of a message arriving at wall-clock `label`, `now_ms`
/// milliseconds after the Unix epoch: `"<label> | <transit>ms"` when the
/// message id is a number and its creation time is not later than now;
/// else just the label. A missing id reads as `0`.
pub open spec fn transit_stamp(id: Option<Seq<char>>, label: Seq<char>, now_ms: u64) -> Seq<char> {
    let id_text = match id {
        Some(s) => s,
        None => "0"@,
    };
    match parse_u64_spec(id_text) {
        Some(v) => if now_ms >= snowflake_ms(v) {
            label + " | "@ + decimal((now_ms - snowflake_ms(v)) as nat) + "ms"@
        } else {
            label
        },
        None => label,
    }
}

pub fn make_transit_stamp(id: &Option<String>, label: &String, now_ms: u64) -> (r: String)
    ensures
        r@ == transit_stamp(opt_text(*id), label@, now_ms),
{
    let parsed: Option<u64> = match id {
        Some(s) => parse_u64(s.as_str()),
        None => parse_u64("0"),
    };
    match parsed {
        Some(v) => {
            let shifted: u64 = v >> 22;
            assert(shifted == v / 4194304) by (bit_vector)
                requires
                    shifted == v >> 22,
            ;
            let sent: u64 = shifted + 1420070400000;
            if now_ms >= sent {
                let mut s: String = label.clone();
                s.append(" | ");
                push_decimal(&mut s, now_ms - sent);
                s.append("ms");
                s
            } else {
                label.clone()
            }
        },
        None => label.clone(),
    }
}

/// Where a gateway session stands.
#[derive(Clone, Copy, Debug, PartialEq, Eq, Structural)]
pub enum GatewayPhase {
    /// Connected; the first frame must be the hello.
    AwaitingHello,
    /// Identified; dispatch frames flow.
    Streaming,
}

/// What a frame calls for.
#[derive(Clone, Debug)]
pub enum GatewayAction {
    /// Drop the connection.
    Close,
    /// Send `frame` and start heartbeats every `heartbeat_ms` milliseconds.
    Identify { heartbeat_ms: u64, frame: String },
    /// Hand the event to the chat state.
    Emit(AppEvent),
    /// Nothing to do.
    Ignore,
}

pub enum GatewayActionView {
    Close,
    Identify { heartbeat_ms: u64, frame: Seq<char> },
    Emit(AppEventView),
    Ignore,
}

impl View for GatewayAction {
    type V = GatewayActionView;

    open spec fn view(&self) -> GatewayActionView {
        match self {
            GatewayAction::Close => GatewayActionView::Close,
            GatewayAction::Identify { heartbeat_ms, frame } => GatewayActionView::Identify {
                heartbeat_ms: *heartbeat_ms,
                frame: frame@,
            },
            GatewayAction::Emit(e) => GatewayActionView::Emit(e@),
            GatewayAction::Ignore => GatewayActionView::Ignore,
        }
    }
}

/// The message a MESSAGE_CREATE dispatch announces.
pub open spec fn created_message(d: GatewayData, label: Seq<char>, now_ms: u64) -> MessageView {
    MessageView {
        nonce: match d.nonce { Some(n) => n@, None => Seq::empty() },
        author: message_author(d),
        content: match d.content { Some(c) => c@, None => Seq::empty() },
        timestamp: transit_stamp(opt_text(d.id), label, now_ms),
        status: MessageStatus::Delivered,
    }
}

/// A dispatch frame (op 0): READY names the user; MESSAGE_CREATE in the
/// watched channel brings a message, unless one with the same non-empty
/// nonce is already shown.
pub open spec fn dispatch(p: GatewayFrame, target: Seq<char>, shown: Seq<MessageView>, label: Seq<char>, now_ms: u64) -> GatewayActionView {
    if opt_text(p.t) == Some("READY"@) {
        let name = ready_name(p.d);
        if name.len() > 0 {
            GatewayActionView::Emit(AppEventView::SetSelfUsername(name))
        } else {
            GatewayActionView::Ignore
        }
    } else if opt_text(p.t) == Some("MESSAGE_CREATE"@) && opt_text(p.d.channel_id) == Some(target) {
        let m = created_message(p.d, label, now_ms);
        if m.nonce.len() > 0 && first_match(shown, m.nonce) is Some {
            GatewayActionView::Ignore
        } else {
            GatewayActionView::Emit(AppEventView::IncomingMessage(m))
        }
    } else {
        GatewayActionView::Ignore
    }
}

/// How a session in `phase` answers a frame (`None`: one that does not
/// decode): the hello is answered by identifying, anything else in its place
/// closes the connection; afterwards dispatch frames are read and all else
/// is ignored.
pub open spec fn gateway_step(
    phase: GatewayPhase,
    p: Option<GatewayFrame>,
    token: Seq<char>,
    target: Seq<char>,
    shown: Seq<MessageView>,
    label: Seq<char>,
    now_ms: u64,
) -> (GatewayPhase, GatewayActionView) {
    match phase {
        GatewayPhase::AwaitingHello => match p {
            Some(p) if p.op == 10 => (GatewayPhase::Streaming, GatewayActionView::Identify {
                heartbeat_ms: match p.d.heartbeat_interval { Some(h) => h, None => default_heartbeat_ms() },
                frame: identify_frame(token),
            }),
            _ => (GatewayPhase::AwaitingHello, GatewayActionView::Close),
        },
        GatewayPhase::Streaming => match p {
            Some(p) if p.op == 0 => (GatewayPhase::Streaming, dispatch(p, target, shown, label, now_ms)),
            _ => (GatewayPhase::Streaming, GatewayActionView::Ignore),
        },
    }
}

fn pick_ready_name(d: &GatewayData) -> (r: String)
    ensures
        r@ == ready_name(*d),
{
    if let Some(g) = &d.user_global_name {
        if g.as_str().unicode_len() > 0 {
            return g.clone();
        }
    }
    match &d.user_username {
        Some(u) => u.clone(),
        None => String::new(),
    }
}

fn pick_author(d: &GatewayData) -> (r: String)
    ensures
        r@ == message_author(*d),
{
    if let Some(n) = &d.member_nick {
        if n.as_str().unicode_len() > 0 {
            return n.clone();
        }
    }
    if let Some(g) = &d.author_global_name {
        if g.as_str().unicode_len() > 0 {
            return g.clone();
        }
    }
    match &d.author_username {
        Some(u) => u.clone(),
        None => owned("Unknown"),
    }
}

fn text_is(t: &Option<String>, word: &str) -> (r: bool)
    ensures
        r == (opt_text(*t) == Some(word@)),
{
    match t {
        Some(s) => same_text(s.as_str(), word),
        None => false,
    }
}

fn shown_has_nonce(shown: &Vec<DiscordMessage>, nonce: &String) -> (r: bool)
    ensures
        r == (first_match(messages_view(shown@), nonce@) is Some),
{
    let ghost mv = messages_view(shown@);
    let len: usize = shown.len();
    let mut i: usize = 0;
    assert(mv.take(0) =~= Seq::<MessageView>::empty());
    while i < len
        invariant
            len == shown.len(),
            mv == messages_view(shown@),
            i <= len,
            first_match(mv.take(i as int), nonce@) is None,
        decreases len - i,
    {
        assert(mv.take(i as int + 1).drop_last() =~= mv.take(i as int));
        if same_text(shown[i].nonce.as_str(), nonce.as_str()) {
            assert(first_match(mv.take(i as int + 1), nonce@) is Some);
            proof { crate::state::lemma_first_match_prefix(mv, nonce@, i as int + 1); }
            return true;
        }
        i = i + 1;
    }
    assert(mv.take(len as int) =~= mv);
    false
}

fn on_dispatch(p: GatewayFrame, target: &str, shown: &Vec<DiscordMessage>, label: &String, now_ms: u64) -> (r: GatewayAction)
    ensures
        r@ == dispatch(p, target@, messages_view(shown@), label@, now_ms),
{
    if text_is(&p.t, "READY") {
        let name: String = pick_ready_name(&p.d);
        if name.as_str().unicode_len() > 0 {
            GatewayAction::Emit(AppEvent::SetSelfUsername(name))
        } else {
            GatewayAction::Ignore
        }
    } else if text_is(&p.t, "MESSAGE_CREATE") && text_is(&p.d.channel_id, target) {
        let nonce: String = match &p.d.nonce {
            Some(n) => n.clone(),
            None => String::new(),
        };
        if nonce.as_str().unicode_len() > 0 && shown_has_nonce(shown, &nonce) {
            return GatewayAction::Ignore;
        }
        let author: String = pick_author(&p.d);
        let content: String = match &p.d.content {
            Some(c) => c.clone(),
            None => String::new(),
        };
        let timestamp: String = make_transit_stamp(&p.d.id, label, now_ms);
        let m = DiscordMessage { nonce, author, content, timestamp, status: MessageStatus::Delivered };
        assert(m@ == created_message(p.d, label@, now_ms));
        GatewayAction::Emit(AppEvent::IncomingMessage(m))
    } else {
        GatewayAction::Ignore
    }
}

/// Decides what a decoded frame calls for (see `gateway_step`).
pub fn decide_gateway(
    phase: GatewayPhase,
    p: Option<GatewayFrame>,
    token: &str,
    target: &str,
    shown: &Vec<DiscordMessage>,
    label: &String,
    now_ms: u64,
) -> (r: (GatewayPhase, GatewayAction))
    ensures
        (r.0, r.1@) == gateway_step(phase, p, token@, target@, messages_view(shown@), label@, now_ms),
{
    match phase {
        GatewayPhase::AwaitingHello => match p {
            Some(p) => {
                if p.op == 10 {
                    let heartbeat_ms: u64 = match p.d.heartbeat_interval {
                        Some(h) => h,
                        None => 41250,
                    };
                    (GatewayPhase::Streaming, GatewayAction::Identify { heartbeat_ms, frame: make_identify_frame(token) })
                } else {
                    (GatewayPhase::AwaitingHello, GatewayAction::Close)
                }
            },
            None => (GatewayPhase::AwaitingHello, GatewayAction::Close),
        },
        GatewayPhase::Streaming => match p {
            Some(p) => {
                if p.op == 0 {
                    (GatewayPhase::Streaming, on_dispatch(p, target, shown, label, now_ms))
                } else {
                    (GatewayPhase::Streaming, GatewayAction::Ignore)
                }
            },
            None => (GatewayPhase::Streaming, GatewayAction::Ignore),
        },
    }
}

/// Decides what a payload calls for (`None`: a frame that is not a gateway
/// payload), with the wall clock `label` and `utc_millis` (milliseconds
/// since the Unix epoch, read as unsigned) of its arrival.
pub fn on_gateway_payload(
    phase: GatewayPhase,
    p: Option<GatewayPayload>,
    token: &str,
    target: &str,
    shown: &Vec<DiscordMessage>,
    label: &String,
    utc_millis: i64,
) -> (r: (GatewayPhase, GatewayAction))
    ensures
        match p {
            Some(p) => exists|f: GatewayFrame| frame_of(f, p)
                && (r.0, r.1@) == #[trigger] gateway_step(phase, Some(f), token@, target@, messages_view(shown@), label@, utc_millis as u64),
            None => (r.0, r.1@) == gateway_step(phase, None, token@, target@, messages_view(shown@), label@, utc_millis as u64),
        },
{
    let f: Option<GatewayFrame> = match &p {
        Some(p) => Some(GatewayFrame::of(p)),
        None => None,
    };
    decide_gateway(phase, f, token, target, shown, label, utc_millis as u64)
}

} // verus!
