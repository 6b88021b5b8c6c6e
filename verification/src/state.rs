//! The chat state and how each event changes it.

use vstd::prelude::*;
use vstd::string::*;

use crate::clock::{instant_now, is_clock_label, read_clock, Clock};
use crate::models::{
    messages_view, AppEvent, AppEventView, DiscordMessage, KeyCode, KeyPress, MessageStatus,
    MessageView, TerminalEvent,
};
use crate::text::{
    decimal, owned, pop_char, push_char, push_decimal, push_signed_decimal, same_text,
    signed_decimal, starts_with,
};

verus! {

/// A chat message waiting for the server's acknowledgement, with the
/// monotonic time (in nanoseconds) at which it was sent.
#[derive(Clone, Debug)]
pub struct OutboundTimer {
    pub nonce: String,
    pub started_ns: u64,
}

/// The state of the chat client.
pub struct AppState {
    pub token: String,
    pub target_channel_id: String,
    pub self_username: String,
    pub messages: Vec<DiscordMessage>,
    pub input_text: String,
    /// The selected row of the message list.
    pub list_state: Option<usize>,
    /// Nonces of the messages whose sending failed, oldest first.
    pub failed_nonces: Vec<String>,
    /// Monotonic time (in nanoseconds) of the last typing notice.
    pub last_typing_sent: Option<u64>,
    /// Messages in flight and when each was sent.
    pub outbound_timers: Vec<OutboundTimer>,
    pub gateway_rtt_ms: Option<u64>,
    pub clock_offset_ms: Option<i64>,
    /// Anchor of the monotonic clock.
    pub started: std::time::Instant,
}

/// The chat state as plain values.
#[verifier::ext_equal]
pub struct AppStateView {
    pub token: Seq<char>,
    pub target_channel_id: Seq<char>,
    pub self_username: Seq<char>,
    pub messages: Seq<MessageView>,
    pub input_text: Seq<char>,
    pub list_state: Option<usize>,
    pub failed_nonces: Seq<Seq<char>>,
    pub last_typing_sent: Option<u64>,
    pub outbound_timers: Seq<(Seq<char>, u64)>,
    pub gateway_rtt_ms: Option<u64>,
    pub clock_offset_ms: Option<i64>,
}

pub open spec fn timers_view(v: Seq<OutboundTimer>) -> Seq<(Seq<char>, u64)> {
    v.map_values(|t: OutboundTimer| (t.nonce@, t.started_ns))
}

pub open spec fn strings_view(v: Seq<String>) -> Seq<Seq<char>> {
    v.map_values(|s: String| s@)
}

impl View for AppState {
    type V = AppStateView;

    open spec fn view(&self) -> AppStateView {
        AppStateView {
            token: self.token@,
            target_channel_id: self.target_channel_id@,
            self_username: self.self_username@,
            messages: messages_view(self.messages@),
            input_text: self.input_text@,
            list_state: self.list_state,
            failed_nonces: strings_view(self.failed_nonces@),
            last_typing_sent: self.last_typing_sent,
            outbound_timers: timers_view(self.outbound_timers@),
            gateway_rtt_ms: self.gateway_rtt_ms,
            clock_offset_ms: self.clock_offset_ms,
        }
    }
}

/// The state a session starts in.
pub open spec fn initial_state(token: Seq<char>) -> AppStateView {
    AppStateView {
        token,
        target_channel_id: Seq::empty(),
        self_username: "You"@,
        messages: Seq::empty(),
        input_text: Seq::empty(),
        list_state: Some(0),
        failed_nonces: Seq::empty(),
        last_typing_sent: None,
        outbound_timers: Seq::empty(),
        gateway_rtt_ms: None,
        clock_offset_ms: None,
    }
}

/// Index of the first message with nonce `n`.
pub open spec fn first_match(msgs: Seq<MessageView>, n: Seq<char>) -> Option<int>
    decreases msgs.len(),
{
    if msgs.len() == 0 {
        None
    } else {
        match first_match(msgs.drop_last(), n) {
            Some(i) => Some(i),
            None => if msgs.last().nonce == n {
                Some(msgs.len() - 1)
            } else {
                None
            },
        }
    }
}

/// The timers without those for nonce `n`.
pub open spec fn timers_without(ts: Seq<(Seq<char>, u64)>, n: Seq<char>) -> Seq<(Seq<char>, u64)>
    decreases ts.len(),
{
    if ts.len() == 0 {
        ts
    } else if ts.last().0 == n {
        timers_without(ts.drop_last(), n)
    } else {
        timers_without(ts.drop_last(), n).push(ts.last())
    }
}

/// The start time of the timer for nonce `n`.
pub open spec fn timer_start(ts: Seq<(Seq<char>, u64)>, n: Seq<char>) -> Option<u64>
    decreases ts.len(),
{
    if ts.len() == 0 {
        None
    } else {
        match timer_start(ts.drop_last(), n) {
            Some(v) => Some(v),
            None => if ts.last().0 == n {
                Some(ts.last().1)
            } else {
                None
            },
        }
    }
}

/// The timers with the one for `n` (re)set to `start`.
pub open spec fn timers_with(ts: Seq<(Seq<char>, u64)>, n: Seq<char>, start: u64) -> Seq<(Seq<char>, u64)> {
    timers_without(ts, n).push((n, start))
}

/// The nonces without `n`.
pub open spec fn nonces_without(fs: Seq<Seq<char>>, n: Seq<char>) -> Seq<Seq<char>>
    decreases fs.len(),
{
    if fs.len() == 0 {
        fs
    } else if fs.last() == n {
        nonces_without(fs.drop_last(), n)
    } else {
        nonces_without(fs.drop_last(), n).push(fs.last())
    }
}

/// Nanoseconds from `start` to `now` on the monotonic clock (0 if `now` is
/// earlier).
pub open spec fn elapsed_ns(now: u64, start: u64) -> u64 {
    if now >= start { (now - start) as u64 } else { 0 }
}

/// Time stamp of a message on its way out: `"<time> | ..."`.
pub open spec fn pending_stamp(label: Seq<char>) -> Seq<char> {
    label + " | ..."@
}

/// Time stamp of a delivered message with its round trip: `"<time> | <n>ms"`.
pub open spec fn round_trip_stamp(label: Seq<char>, ms: u64) -> Seq<char> {
    label + " | "@ + decimal(ms as nat) + "ms"@
}

/// Nonce of a chat message the user sends: `"n-<unix nanoseconds>"`.
pub open spec fn chat_nonce(utc_nanos: i64) -> Seq<char> {
    "n-"@ + signed_decimal(utc_nanos as int)
}

/// The system notice added when the gateway connection closes.
pub open spec fn closed_notice(label: Seq<char>) -> MessageView {
    MessageView {
        nonce: "err-close"@,
        author: "System"@,
        content: "⚠️ WebSocket closed. Reconnecting..."@,
        timestamp: label,
        status: MessageStatus::Failed,
    }
}

/// Typing notices are sent at most once per this many nanoseconds (seven
/// seconds).
pub open spec fn typing_interval_ns() -> u64 {
    7_000_000_000
}

/// The result of one event: the new state, whether the client quits, and
/// what goes to the network worker.
#[verifier::ext_equal]
pub struct StepResult {
    pub state: AppStateView,
    pub quit: bool,
    pub outbound: Option<AppEventView>,
}

pub open spec fn quiet(s: AppStateView) -> StepResult {
    StepResult { state: s, quit: false, outbound: None }
}

/// An incoming message is added unless a message with the same non-empty
/// nonce is already there; system notices (nonce `err-...`) are always added.
pub open spec fn receive_message(s: AppStateView, m: MessageView) -> AppStateView {
    if "err-"@.is_prefix_of(m.nonce) || m.nonce.len() == 0 || first_match(s.messages, m.nonce) is None {
        AppStateView { messages: s.messages.push(m), ..s }
    } else {
        s
    }
}

/// The server took message `nonce`: its timer stops; the first message with
/// that nonce becomes delivered, stamped with the round trip if it was timed,
/// else with `stamp` if that is not empty; and it leaves the failed list.
pub open spec fn confirm_sent(s: AppStateView, nonce: Seq<char>, stamp: Seq<char>, c: Clock) -> AppStateView {
    let started = timer_start(s.outbound_timers, nonce);
    let s1 = AppStateView { outbound_timers: timers_without(s.outbound_timers, nonce), ..s };
    match first_match(s.messages, nonce) {
        None => s1,
        Some(i) => {
            let m = s.messages[i];
            let new_stamp = match started {
                Some(t) => round_trip_stamp(c.label@, elapsed_ns(c.mono_ns, t) / 1_000_000),
                None => if stamp.len() > 0 { stamp } else { m.timestamp },
            };
            AppStateView {
                messages: s.messages.update(i, MessageView { status: MessageStatus::Delivered, timestamp: new_stamp, ..m }),
                failed_nonces: nonces_without(s.failed_nonces, nonce),
                ..s1
            }
        },
    }
}

/// Sending message `nonce` failed: its timer stops, the first message with
/// that nonce is marked failed, and the nonce joins the failed list once.
pub open spec fn mark_failed(s: AppStateView, nonce: Seq<char>) -> AppStateView {
    let s1 = AppStateView { outbound_timers: timers_without(s.outbound_timers, nonce), ..s };
    let s2 = match first_match(s.messages, nonce) {
        None => s1,
        Some(i) => AppStateView {
            messages: s.messages.update(i, MessageView { status: MessageStatus::Failed, ..s.messages[i] }),
            ..s1
        },
    };
    if s.failed_nonces.contains(nonce) {
        s2
    } else {
        AppStateView { failed_nonces: s2.failed_nonces.push(nonce), ..s2 }
    }
}

/// Tab retries the most recently failed message: it goes back to sending
/// and is handed to the network again.
pub open spec fn retry_last_failed(s: AppStateView, c: Clock) -> StepResult {
    if s.failed_nonces.len() == 0 {
        quiet(s)
    } else {
        let n = s.failed_nonces.last();
        match first_match(s.messages, n) {
            None => quiet(s),
            Some(i) => {
                let m = s.messages[i];
                StepResult {
                    state: AppStateView {
                        messages: s.messages.update(i, MessageView {
                            status: MessageStatus::Sending,
                            timestamp: pending_stamp(c.label@),
                            ..m
                        }),
                        outbound_timers: timers_with(s.outbound_timers, n, c.mono_ns),
                        ..s
                    },
                    quit: false,
                    outbound: Some(AppEventView::HttpSendChat { nonce: n, text: m.content }),
                }
            },
        }
    }
}

/// A typed character goes into the input; a typing notice goes out if none
/// went out in the last seven seconds and a channel is set.
pub open spec fn type_char(s: AppStateView, ch: char, c: Clock) -> StepResult {
    let s1 = AppStateView { input_text: s.input_text.push(ch), ..s };
    let due = match s.last_typing_sent {
        Some(t) => elapsed_ns(c.mono_ns, t) >= typing_interval_ns(),
        None => true,
    };
    if due && s.target_channel_id.len() > 0 {
        StepResult {
            state: AppStateView { last_typing_sent: Some(c.mono_ns), ..s1 },
            quit: false,
            outbound: Some(AppEventView::HttpTriggerTyping),
        }
    } else {
        quiet(s1)
    }
}

/// Enter sends the non-empty input as a new message.
pub open spec fn submit_input(s: AppStateView, c: Clock) -> StepResult {
    if s.input_text.len() == 0 {
        quiet(s)
    } else {
        let nonce = chat_nonce(c.utc_nanos);
        let m = MessageView {
            nonce,
            author: s.self_username,
            content: s.input_text,
            timestamp: pending_stamp(c.label@),
            status: MessageStatus::Sending,
        };
        StepResult {
            state: AppStateView {
                last_typing_sent: None,
                input_text: Seq::empty(),
                outbound_timers: timers_with(s.outbound_timers, nonce, c.mono_ns),
                messages: s.messages.push(m),
                ..s
            },
            quit: false,
            outbound: Some(AppEventView::HttpSendChat { nonce, text: s.input_text }),
        }
    }
}

/// A key event: Ctrl+C quits; Tab, characters, Backspace and Enter edit and
/// send; releases and other keys change nothing.
pub open spec fn key_step(s: AppStateView, k: KeyPress, c: Clock) -> StepResult {
    if !k.pressed {
        quiet(s)
    } else if k.code == KeyCode::Char('c') && k.ctrl {
        StepResult { state: s, quit: true, outbound: None }
    } else {
        match k.code {
            KeyCode::Tab => retry_last_failed(s, c),
            KeyCode::Char(ch) => type_char(s, ch, c),
            KeyCode::Backspace => quiet(AppStateView {
                input_text: if s.input_text.len() > 0 { s.input_text.drop_last() } else { s.input_text },
                ..s
            }),
            KeyCode::Enter => submit_input(s, c),
            KeyCode::Other => quiet(s),
        }
    }
}

/// How the chat state answers one event, read at clock `c`.
pub open spec fn step(s: AppStateView, e: AppEventView, c: Clock) -> StepResult {
    match e {
        AppEventView::UpdateClockOffset(o) => quiet(AppStateView { clock_offset_ms: Some(o), ..s }),
        AppEventView::UpdateGatewayRtt { rtt_ms, offset_ms } => quiet(AppStateView {
            gateway_rtt_ms: Some(rtt_ms),
            clock_offset_ms: if s.clock_offset_ms is None { Some(offset_ms) } else { s.clock_offset_ms },
            ..s
        }),
        AppEventView::SetSelfUsername(u) => quiet(
            if u.len() > 0 { AppStateView { self_username: u, ..s } } else { s },
        ),
        AppEventView::IncomingMessage(m) => quiet(receive_message(s, m)),
        AppEventView::MessageSent { nonce, timestamp } => quiet(confirm_sent(s, nonce, timestamp, c)),
        AppEventView::MessageFailed { nonce } => quiet(mark_failed(s, nonce)),
        AppEventView::GatewayClosed => quiet(
            AppStateView { messages: s.messages.push(closed_notice(c.label@)), ..s },
        ),
        AppEventView::Terminal(TerminalEvent::Key(k)) => key_step(s, k, c),
        _ => quiet(s),
    }
}

/// What `handle_event` reports back: whether to quit, and the request, if
/// any, for the network worker.
#[derive(Clone, Debug)]
pub struct EventOutcome {
    pub quit: bool,
    pub outbound: Option<AppEvent>,
}

pub open spec fn outbound_view(o: Option<AppEvent>) -> Option<AppEventView> {
    match o {
        Some(e) => Some(e@),
        None => None,
    }
}


/// A match found in a prefix is the first match of the whole sequence.
pub proof fn lemma_first_match_prefix(s: Seq<MessageView>, n: Seq<char>, k: int)
    requires
        0 <= k <= s.len(),
        first_match(s.take(k), n) is Some,
    ensures
        first_match(s, n) == first_match(s.take(k), n),
    decreases s.len(),
{
    if k == s.len() {
        assert(s.take(k) =~= s);
    } else {
        assert(s.drop_last().take(k) =~= s.take(k));
        lemma_first_match_prefix(s.drop_last(), n, k);
    }
}

/// The first match is a message with that nonce.
pub proof fn lemma_first_match_valid(s: Seq<MessageView>, n: Seq<char>)
    ensures
        first_match(s, n) matches Some(i) ==> 0 <= i < s.len() && s[i].nonce == n,
        first_match(s, n) is None ==> forall|j: int| 0 <= j < s.len() ==> s[j].nonce != n,
    decreases s.len(),
{
    if s.len() > 0 {
        lemma_first_match_valid(s.drop_last(), n);
        assert forall|j: int| 0 <= j < s.len() - 1 implies s.drop_last()[j] == s[j] by {}
    }
}

impl AppState {
    /// A fresh session for the user with `token`.
    pub fn new(token: String) -> (st: AppState)
        ensures
            st@ == initial_state(token@),
    {
        let st = AppState {
            token,
            target_channel_id: String::new(),
            self_username: owned("You"),
            messages: Vec::new(),
            input_text: String::new(),
            list_state: Some(0),
            failed_nonces: Vec::new(),
            last_typing_sent: None,
            outbound_timers: Vec::new(),
            gateway_rtt_ms: None,
            clock_offset_ms: None,
            started: instant_now(),
        };
        assert(st@ =~= initial_state(st.token@));
        st
    }

    /// Reads the clocks now.
    pub fn read_clock(&self) -> (c: Clock)
        ensures
            is_clock_label(c.label@),
    {
        read_clock(&self.started)
    }

    /// Position of the first message with `nonce`.
    pub fn find_message(&self, nonce: &str) -> (r: Option<usize>)
        ensures
            match r {
                Some(i) => i < self.messages.len() && first_match(self@.messages, nonce@) == Some(i as int),
                None => first_match(self@.messages, nonce@) is None,
            },
    {
        let ghost mv = self@.messages;
        let len: usize = self.messages.len();
        let mut i: usize = 0;
        assert(mv.take(0) =~= Seq::<MessageView>::empty());
        while i < len
            invariant
                len == self.messages.len(),
                mv == self@.messages,
                i <= len,
                first_match(mv.take(i as int), nonce@) is None,
            decreases len - i,
        {
            assert(mv.take(i as int + 1).drop_last() =~= mv.take(i as int));
            if same_text(self.messages[i].nonce.as_str(), nonce) {
                assert(first_match(mv.take(i as int + 1), nonce@) == Some(i as int));
                proof { lemma_first_match_prefix(mv, nonce@, i as int + 1); }
                return Some(i);
            }
            i = i + 1;
        }
        assert(mv.take(len as int) =~= mv);
        None
    }

    /// Stops the timer of `nonce`, giving its start time.
    fn stop_timer(&mut self, nonce: &str) -> (r: Option<u64>)
        ensures
            r == timer_start(old(self)@.outbound_timers, nonce@),
            final(self)@ == (AppStateView {
                outbound_timers: timers_without(old(self)@.outbound_timers, nonce@),
                ..old(self)@
            }),
    {
        let ghost tv = old(self)@.outbound_timers;
        let len: usize = self.outbound_timers.len();
        let mut kept: Vec<OutboundTimer> = Vec::new();
        let mut found: Option<u64> = None;
        let mut i: usize = 0;
        assert(tv.take(0) =~= Seq::<(Seq<char>, u64)>::empty());
        while i < len
            invariant
                len == self.outbound_timers.len(),
                tv == timers_view(self.outbound_timers@),
                i <= len,
                timers_view(kept@) == timers_without(tv.take(i as int), nonce@),
                found == timer_start(tv.take(i as int), nonce@),
            decreases len - i,
        {
            let ghost before = kept@;
            assert(tv.take(i as int + 1).drop_last() =~= tv.take(i as int));
            let t: &OutboundTimer = &self.outbound_timers[i];
            if same_text(t.nonce.as_str(), nonce) {
                if found.is_none() {
                    found = Some(t.started_ns);
                }
            } else {
                kept.push(OutboundTimer { nonce: t.nonce.clone(), started_ns: t.started_ns });
                assert(timers_view(kept@) =~= timers_view(before).push(tv[i as int]));
            }
            i = i + 1;
        }
        assert(tv.take(len as int) =~= tv);
        self.outbound_timers = kept;
        assert(self@ =~= (AppStateView { outbound_timers: timers_without(tv, nonce@), ..old(self)@ }));
        found
    }

    /// Starts (or restarts) the timer of `nonce` at `now`.
    fn start_timer(&mut self, nonce: &String, now: u64)
        ensures
            final(self)@ == (AppStateView {
                outbound_timers: timers_with(old(self)@.outbound_timers, nonce@, now),
                ..old(self)@
            }),
    {
        let _ = self.stop_timer(nonce.as_str());
        let ghost before = self.outbound_timers@;
        self.outbound_timers.push(OutboundTimer { nonce: nonce.clone(), started_ns: now });
        assert(timers_view(self.outbound_timers@) =~= timers_view(before).push((nonce@, now)));
        assert(self@ =~= (AppStateView {
            outbound_timers: timers_with(old(self)@.outbound_timers, nonce@, now),
            ..old(self)@
        }));
    }

    /// Removes `nonce` from the failed list.
    fn forget_failed(&mut self, nonce: &str)
        ensures
            final(self)@ == (AppStateView {
                failed_nonces: nonces_without(old(self)@.failed_nonces, nonce@),
                ..old(self)@
            }),
    {
        let ghost fv = old(self)@.failed_nonces;
        let len: usize = self.failed_nonces.len();
        let mut kept: Vec<String> = Vec::new();
        let mut i: usize = 0;
        assert(fv.take(0) =~= Seq::<Seq<char>>::empty());
        while i < len
            invariant
                len == self.failed_nonces.len(),
                fv == strings_view(self.failed_nonces@),
                i <= len,
                strings_view(kept@) == nonces_without(fv.take(i as int), nonce@),
            decreases len - i,
        {
            let ghost before = kept@;
            assert(fv.take(i as int + 1).drop_last() =~= fv.take(i as int));
            if !same_text(self.failed_nonces[i].as_str(), nonce) {
                kept.push(self.failed_nonces[i].clone());
                assert(strings_view(kept@) =~= strings_view(before).push(fv[i as int]));
            }
            i = i + 1;
        }
        assert(fv.take(len as int) =~= fv);
        self.failed_nonces = kept;
        assert(self@ =~= (AppStateView { failed_nonces: nonces_without(fv, nonce@), ..old(self)@ }));
    }

    /// Whether `nonce` is in the failed list.
    fn is_failed(&self, nonce: &str) -> (r: bool)
        ensures
            r == self@.failed_nonces.contains(nonce@),
    {
        let len: usize = self.failed_nonces.len();
        let mut i: usize = 0;
        while i < len
            invariant
                len == self.failed_nonces.len(),
                i <= len,
                forall|j: int| 0 <= j < i ==> self@.failed_nonces[j] != nonce@,
            decreases len - i,
        {
            if same_text(self.failed_nonces[i].as_str(), nonce) {
                assert(self@.failed_nonces[i as int] == nonce@);
                return true;
            }
            i = i + 1;
        }
        false
    }

    /// Sets the status of message `i`, and its time stamp where one is given.
    fn restamp(&mut self, i: usize, status: MessageStatus, stamp: Option<String>)
        requires
            i < old(self).messages.len(),
        ensures
            final(self)@ == (AppStateView {
                messages: old(self)@.messages.update(i as int, MessageView {
                    status,
                    timestamp: match stamp {
                        Some(t) => t@,
                        None => old(self)@.messages[i as int].timestamp,
                    },
                    ..old(self)@.messages[i as int]
                }),
                ..old(self)@
            }),
    {
        let ghost before = self.messages@;
        let mut m: DiscordMessage = self.messages.remove(i);
        m.status = status;
        match stamp {
            Some(t) => { m.timestamp = t; },
            None => {},
        }
        self.messages.insert(i, m);
        assert(self.messages@ =~= before.update(i as int, m));
        assert(messages_view(self.messages@) =~= messages_view(before).update(i as int, m@));
        assert(self@ =~= (AppStateView {
            messages: messages_view(before).update(i as int, m@),
            ..old(self)@
        }));
    }
}


/// Nanoseconds from `start` to `now`, 0 if `now` is earlier.
pub fn elapsed_between(now: u64, start: u64) -> (r: u64)
    ensures
        r == elapsed_ns(now, start),
{
    if now >= start { now - start } else { 0 }
}

/// `"<label> | ..."`.
fn make_pending_stamp(label: &String) -> (r: String)
    ensures
        r@ == pending_stamp(label@),
{
    let mut s: String = label.clone();
    s.append(" | ...");
    s
}

impl AppState {
    fn on_message_sent(&mut self, nonce: String, stamp: String, clock: &Clock)
        ensures
            final(self)@ == confirm_sent(old(self)@, nonce@, stamp@, *clock),
    {
        let started: Option<u64> = self.stop_timer(nonce.as_str());
        match self.find_message(nonce.as_str()) {
            None => {},
            Some(i) => {
                let new_stamp: Option<String> = match started {
                    Some(t) => {
                        let mut s: String = clock.label.clone();
                        s.append(" | ");
                        push_decimal(&mut s, elapsed_between(clock.mono_ns, t) / 1_000_000);
                        s.append("ms");
                        Some(s)
                    },
                    None => if stamp.as_str().unicode_len() > 0 {
                        Some(stamp)
                    } else {
                        None
                    },
                };
                self.restamp(i, MessageStatus::Delivered, new_stamp);
                self.forget_failed(nonce.as_str());
            },
        }
        assert(self@ =~= confirm_sent(old(self)@, nonce@, stamp@, *clock));
    }

    fn on_message_failed(&mut self, nonce: String)
        ensures
            final(self)@ == mark_failed(old(self)@, nonce@),
    {
        let _ = self.stop_timer(nonce.as_str());
        match self.find_message(nonce.as_str()) {
            None => {},
            Some(i) => {
                self.restamp(i, MessageStatus::Failed, None);
            },
        }
        if !self.is_failed(nonce.as_str()) {
            let ghost before = self.failed_nonces@;
            self.failed_nonces.push(nonce);
            assert(strings_view(self.failed_nonces@) =~= strings_view(before).push(nonce@));
        }
        assert(self@ =~= mark_failed(old(self)@, nonce@));
    }

    fn push_message(&mut self, m: DiscordMessage)
        ensures
            final(self)@ == (AppStateView { messages: old(self)@.messages.push(m@), ..old(self)@ }),
    {
        let ghost before = self.messages@;
        self.messages.push(m);
        assert(messages_view(self.messages@) =~= messages_view(before).push(m@));
        assert(self@ =~= (AppStateView { messages: old(self)@.messages.push(m@), ..old(self)@ }));
    }

    fn on_incoming(&mut self, m: DiscordMessage)
        ensures
            final(self)@ == receive_message(old(self)@, m@),
    {
        if starts_with(m.nonce.as_str(), "err-") {
            self.push_message(m);
        } else if m.nonce.as_str().unicode_len() == 0 {
            self.push_message(m);
        } else if self.find_message(m.nonce.as_str()).is_none() {
            self.push_message(m);
        }
    }

    fn on_gateway_closed(&mut self, clock: &Clock)
        ensures
            final(self)@ == (AppStateView {
                messages: old(self)@.messages.push(closed_notice(clock.label@)),
                ..old(self)@
            }),
    {
        let m = DiscordMessage {
            nonce: owned("err-close"),
            author: owned("System"),
            content: owned("⚠️ WebSocket closed. Reconnecting..."),
            timestamp: clock.label.clone(),
            status: MessageStatus::Failed,
        };
        self.push_message(m);
    }

    fn on_tab(&mut self, clock: &Clock) -> (out: EventOutcome)
        ensures
            retry_last_failed(old(self)@, *clock) == (StepResult {
                state: final(self)@,
                quit: false,
                outbound: outbound_view(out.outbound),
            }),
            !out.quit,
    {
        let len: usize = self.failed_nonces.len();
        if len == 0 {
            return EventOutcome { quit: false, outbound: None };
        }
        let nonce: String = self.failed_nonces[len - 1].clone();
        assert(nonce@ == old(self)@.failed_nonces.last());
        match self.find_message(nonce.as_str()) {
            None => EventOutcome { quit: false, outbound: None },
            Some(i) => {
                proof { lemma_first_match_valid(self@.messages, nonce@); }
                let text: String = self.messages[i].content.clone();
                let stamp: String = make_pending_stamp(&clock.label);
                self.restamp(i, MessageStatus::Sending, Some(stamp));
                self.start_timer(&nonce, clock.mono_ns);
                let out = EventOutcome {
                    quit: false,
                    outbound: Some(AppEvent::HttpSendChat { nonce, text }),
                };
                assert(self@ =~= retry_last_failed(old(self)@, *clock).state);
                out
            },
        }
    }

    fn on_char(&mut self, ch: char, clock: &Clock) -> (out: EventOutcome)
        ensures
            type_char(old(self)@, ch, *clock) == (StepResult {
                state: final(self)@,
                quit: false,
                outbound: outbound_view(out.outbound),
            }),
            !out.quit,
    {
        push_char(&mut self.input_text, ch);
        let due: bool = match self.last_typing_sent {
            Some(t) => elapsed_between(clock.mono_ns, t) >= 7_000_000_000,
            None => true,
        };
        if due && self.target_channel_id.as_str().unicode_len() > 0 {
            self.last_typing_sent = Some(clock.mono_ns);
            EventOutcome { quit: false, outbound: Some(AppEvent::HttpTriggerTyping) }
        } else {
            EventOutcome { quit: false, outbound: None }
        }
    }

    fn on_enter(&mut self, clock: &Clock) -> (out: EventOutcome)
        ensures
            submit_input(old(self)@, *clock) == (StepResult {
                state: final(self)@,
                quit: false,
                outbound: outbound_view(out.outbound),
            }),
            !out.quit,
    {
        if self.input_text.as_str().unicode_len() == 0 {
            return EventOutcome { quit: false, outbound: None };
        }
        self.last_typing_sent = None;
        let text: String = self.input_text.clone();
        self.input_text = String::new();
        let mut nonce: String = owned("n-");
        push_signed_decimal(&mut nonce, clock.utc_nanos);
        let stamp: String = make_pending_stamp(&clock.label);
        self.start_timer(&nonce, clock.mono_ns);
        let m = DiscordMessage {
            nonce: nonce.clone(),
            author: self.self_username.clone(),
            content: text.clone(),
            timestamp: stamp,
            status: MessageStatus::Sending,
        };
        self.push_message(m);
        let out = EventOutcome { quit: false, outbound: Some(AppEvent::HttpSendChat { nonce, text }) };
        assert(self@ =~= submit_input(old(self)@, *clock).state);
        out
    }

    fn on_key(&mut self, k: KeyPress, clock: &Clock) -> (out: EventOutcome)
        ensures
            key_step(old(self)@, k, *clock) == (StepResult {
                state: final(self)@,
                quit: out.quit,
                outbound: outbound_view(out.outbound),
            }),
    {
        if !k.pressed {
            return EventOutcome { quit: false, outbound: None };
        }
        if k.code == KeyCode::Char('c') && k.ctrl {
            return EventOutcome { quit: true, outbound: None };
        }
        match k.code {
            KeyCode::Tab => self.on_tab(clock),
            KeyCode::Char(ch) => self.on_char(ch, clock),
            KeyCode::Backspace => {
                let _ = pop_char(&mut self.input_text);
                assert(self@ =~= key_step(old(self)@, k, *clock).state);
                EventOutcome { quit: false, outbound: None }
            },
            KeyCode::Enter => self.on_enter(clock),
            KeyCode::Other => EventOutcome { quit: false, outbound: None },
        }
    }

    /// Handles one event read at `clock`: updates the state as `step` says,
    /// and returns whether to quit and what to hand to the network worker.
    pub fn handle_event_at(&mut self, event: AppEvent, clock: &Clock) -> (out: EventOutcome)
        ensures
            step(old(self)@, event@, *clock) == (StepResult {
                state: final(self)@,
                quit: out.quit,
                outbound: outbound_view(out.outbound),
            }),
    {
        let quiet_outcome = EventOutcome { quit: false, outbound: None };
        match event {
            AppEvent::UpdateClockOffset(o) => {
                self.clock_offset_ms = Some(o);
                quiet_outcome
            },
            AppEvent::UpdateGatewayRtt { rtt_ms, offset_ms } => {
                self.gateway_rtt_ms = Some(rtt_ms);
                if self.clock_offset_ms.is_none() {
                    self.clock_offset_ms = Some(offset_ms);
                }
                quiet_outcome
            },
            AppEvent::SetSelfUsername(u) => {
                if u.as_str().unicode_len() > 0 {
                    self.self_username = u;
                }
                quiet_outcome
            },
            AppEvent::IncomingMessage(m) => {
                self.on_incoming(m);
                quiet_outcome
            },
            AppEvent::MessageSent { nonce, timestamp } => {
                self.on_message_sent(nonce, timestamp, clock);
                quiet_outcome
            },
            AppEvent::MessageFailed { nonce } => {
                self.on_message_failed(nonce);
                quiet_outcome
            },
            AppEvent::GatewayClosed => {
                self.on_gateway_closed(clock);
                quiet_outcome
            },
            AppEvent::Terminal(TerminalEvent::Key(k)) => self.on_key(k, clock),
            _ => quiet_outcome,
        }
    }

    /// Handles one event at the current time: the state and the outcome are
    /// those `step` gives for some reading of the clocks.
    pub fn handle_event(&mut self, event: AppEvent) -> (out: EventOutcome)
        ensures
            exists|c: Clock|
                is_clock_label(c.label@) && #[trigger] step(old(self)@, event@, c) == (StepResult {
                    state: final(self)@,
                    quit: out.quit,
                    outbound: outbound_view(out.outbound),
                }),
    {
        let clock: Clock = self.read_clock();
        let out = self.handle_event_at(event, &clock);
        out
    }
}

} // verus!
