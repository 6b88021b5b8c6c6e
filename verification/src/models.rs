//! The data the client passes around: servers, channels, chat messages and
//! the events that drive the chat state.

use vstd::prelude::*;

verus! {

/// A text channel of a server.
#[derive(Clone, Debug)]
pub struct Channel {
    pub id: String,
    pub name: String,
}

/// A server (guild) the user belongs to.
#[derive(Clone, Debug)]
pub struct Server {
    pub id: String,
    pub name: String,
    pub channels: Vec<Channel>,
}

/// Delivery state of a chat message.
#[derive(Clone, Copy, Debug, PartialEq, Eq, Structural)]
pub enum MessageStatus {
    Sending,
    Delivered,
    Failed,
}

/// A chat message as the feed shows it.
#[derive(Clone, Debug)]
pub struct DiscordMessage {
    pub nonce: String,
    pub author: String,
    pub content: String,
    pub timestamp: String,
    pub status: MessageStatus,
}

/// A chat message as text values.
pub struct MessageView {
    pub nonce: Seq<char>,
    pub author: Seq<char>,
    pub content: Seq<char>,
    pub timestamp: Seq<char>,
    pub status: MessageStatus,
}

impl View for DiscordMessage {
    type V = MessageView;

    open spec fn view(&self) -> MessageView {
        MessageView {
            nonce: self.nonce@,
            author: self.author@,
            content: self.content@,
            timestamp: self.timestamp@,
            status: self.status,
        }
    }
}

/// The views of a list of messages, in order.
pub open spec fn messages_view(v: Seq<DiscordMessage>) -> Seq<MessageView> {
    v.map_values(|m: DiscordMessage| m@)
}

/// The body of an outgoing chat message.
#[derive(Clone, Debug)]
pub struct MessagePayload {
    pub content: String,
    pub nonce: String,
}

/// The author of a message in the REST history.
#[derive(Clone, Debug)]
pub struct DiscordApiAuthor {
    pub username: String,
    pub global_name: Option<String>,
}

/// The JSON value found in a history message's `nonce` field.
#[derive(Clone, Debug)]
pub enum NonceValue {
    /// A JSON string.
    Text(String),
    /// A JSON number, in the notation the JSON library writes it.
    Number(String),
    /// Any other JSON value.
    Other,
}

/// A message of the REST history, with its fields as plain values.
#[derive(Clone, Debug)]
pub struct DiscordApiMessage {
    pub id: String,
    pub nonce: Option<NonceValue>,
    pub content: String,
    pub author: DiscordApiAuthor,
    pub timestamp: String,
}

/// The key of a key event.
#[derive(Clone, Copy, Debug, PartialEq, Eq, Structural)]
pub enum KeyCode {
    Char(char),
    Tab,
    Backspace,
    Enter,
    Other,
}

/// A key event of the terminal: the key, whether Control was held, and
/// whether it is a press (as opposed to a repeat or a release).
#[derive(Clone, Copy, Debug, PartialEq, Eq, Structural)]
pub struct KeyPress {
    pub code: KeyCode,
    pub ctrl: bool,
    pub pressed: bool,
}

/// An input event of the terminal.
#[derive(Clone, Copy, Debug, PartialEq, Eq, Structural)]
pub enum TerminalEvent {
    Key(KeyPress),
    Other,
}

/// Everything that flows between the terminal, the network tasks and the
/// chat state.
#[derive(Clone, Debug)]
pub enum AppEvent {
    IncomingMessage(DiscordMessage),
    MessageSent { nonce: String, timestamp: String },
    MessageFailed { nonce: String },
    Terminal(TerminalEvent),
    GatewayClosed,
    SetSelfUsername(String),
    HttpTriggerTyping,
    HttpSendChat { nonce: String, text: String },
    FetchChannelHistory(String),
    LoadChannelHistory(Vec<DiscordMessage>),
    SwitchChannel(String),
    UpdateGatewayRtt { rtt_ms: u64, offset_ms: i64 },
    UpdateClockOffset(i64),
    ToggleTimestamp,
    ToggleLatency,
    ScrollChat(i32),
}

/// An event with its texts as character sequences.
pub enum AppEventView {
    IncomingMessage(MessageView),
    MessageSent { nonce: Seq<char>, timestamp: Seq<char> },
    MessageFailed { nonce: Seq<char> },
    Terminal(TerminalEvent),
    GatewayClosed,
    SetSelfUsername(Seq<char>),
    HttpTriggerTyping,
    HttpSendChat { nonce: Seq<char>, text: Seq<char> },
    FetchChannelHistory(Seq<char>),
    LoadChannelHistory(Seq<MessageView>),
    SwitchChannel(Seq<char>),
    UpdateGatewayRtt { rtt_ms: u64, offset_ms: i64 },
    UpdateClockOffset(i64),
    ToggleTimestamp,
    ToggleLatency,
    ScrollChat(i32),
}

impl View for AppEvent {
    type V = AppEventView;

    open spec fn view(&self) -> AppEventView {
        match self {
            AppEvent::IncomingMessage(m) => AppEventView::IncomingMessage(m@),
            AppEvent::MessageSent { nonce, timestamp } => AppEventView::MessageSent {
                nonce: nonce@,
                timestamp: timestamp@,
            },
            AppEvent::MessageFailed { nonce } => AppEventView::MessageFailed { nonce: nonce@ },
            AppEvent::Terminal(t) => AppEventView::Terminal(*t),
            AppEvent::GatewayClosed => AppEventView::GatewayClosed,
            AppEvent::SetSelfUsername(u) => AppEventView::SetSelfUsername(u@),
            AppEvent::HttpTriggerTyping => AppEventView::HttpTriggerTyping,
            AppEvent::HttpSendChat { nonce, text } => AppEventView::HttpSendChat {
                nonce: nonce@,
                text: text@,
            },
            AppEvent::FetchChannelHistory(c) => AppEventView::FetchChannelHistory(c@),
            AppEvent::LoadChannelHistory(v) => AppEventView::LoadChannelHistory(messages_view(v@)),
            AppEvent::SwitchChannel(c) => AppEventView::SwitchChannel(c@),
            AppEvent::UpdateGatewayRtt { rtt_ms, offset_ms } => AppEventView::UpdateGatewayRtt {
                rtt_ms: *rtt_ms,
                offset_ms: *offset_ms,
            },
            AppEvent::UpdateClockOffset(o) => AppEventView::UpdateClockOffset(*o),
            AppEvent::ToggleTimestamp => AppEventView::ToggleTimestamp,
            AppEvent::ToggleLatency => AppEventView::ToggleLatency,
            AppEvent::ScrollChat(d) => AppEventView::ScrollChat(*d),
        }
    }
}

/// Events that the network worker carries out rather than the chat state:
/// a typing notice, a chat message to send, or a history fetch.
pub open spec fn is_network_request(e: AppEventView) -> bool {
    ||| e is HttpTriggerTyping
    ||| e is HttpSendChat
    ||| e is FetchChannelHistory
}

/// Whether the event goes to the network worker (true) or to the chat
/// state (false).
pub fn routes_to_network(e: &AppEvent) -> (r: bool)
    ensures
        r == is_network_request(e@),
{
    match e {
        AppEvent::HttpTriggerTyping => true,
        AppEvent::HttpSendChat { .. } => true,
        AppEvent::FetchChannelHistory(_) => true,
        _ => false,
    }
}

} // verus!
