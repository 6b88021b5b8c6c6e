//! Properties of the chat state that hold across events.

use vstd::prelude::*;

use crate::clock::{is_clock_label, Clock};
use crate::text::{decimal, first_occurrence_from, is_control, is_whitespace, lemma_decimal_digits, occurs_at, trim, trim_end, trim_start};
use crate::view::{feed_line_of, first_segment, header_text, latency_part, meta_text, time_part, FeedLine};
use crate::json::{field_u64, json_lookup};
use crate::models::{is_network_request, AppEventView, KeyCode, KeyPress, MessageStatus, MessageView, TerminalEvent};
use crate::gateway::{
    dispatch, frame_of, gateway_step, identify_frame, opt_text, text_at, GatewayActionView, GatewayFrame, GatewayPayload, GatewayPhase,
};
use crate::http::{
    at_most, history_entry, history_feed, keep_in_body, keep_in_message, kept_chars, named_channels, rejection_detail,
    rejection_stamp, send_report, SendOutcome,
};
use crate::models::{Channel, DiscordApiMessage, NonceValue};
use crate::text::parse_u64_spec;
use vstd::utf8::{decode_utf8, encode_utf8, is_char_boundary};
use crate::state::{
    first_match, key_step, lemma_first_match_valid, mark_failed, nonces_without, receive_message,
    elapsed_ns, initial_state, quiet, round_trip_stamp, step, timer_start, typing_interval_ns, timers_with, timers_without, AppStateView,
};

verus! {

/// No two timers are for the same nonce.
pub open spec fn distinct_timer_keys(ts: Seq<(Seq<char>, u64)>) -> bool {
    forall|i: int, j: int| 0 <= i < j < ts.len() ==> ts[i].0 != ts[j].0
}

/// No nonce occurs twice.
pub open spec fn distinct_nonces(fs: Seq<Seq<char>>) -> bool {
    forall|i: int, j: int| 0 <= i < j < fs.len() ==> fs[i] != fs[j]
}

proof fn lemma_timers_without_keys(ts: Seq<(Seq<char>, u64)>, n: Seq<char>)
    ensures
        forall|i: int| 0 <= i < timers_without(ts, n).len() ==> #[trigger] timers_without(ts, n)[i].0 != n,
        forall|i: int| 0 <= i < timers_without(ts, n).len() ==>
            exists|j: int| 0 <= j < ts.len() && ts[j] == #[trigger] timers_without(ts, n)[i],
        distinct_timer_keys(ts) ==> distinct_timer_keys(timers_without(ts, n)),
        timer_start(timers_without(ts, n), n) is None,
    decreases ts.len(),
{
    if ts.len() > 0 {
        let d = ts.drop_last();
        lemma_timers_without_keys(d, n);
        let r = timers_without(d, n);
        assert forall|i: int| 0 <= i < r.len() implies exists|j: int| 0 <= j < ts.len() && ts[j] == #[trigger] r[i] by {
            let j = choose|j: int| 0 <= j < d.len() && d[j] == r[i];
            assert(ts[j] == d[j]);
        }
        if ts.last().0 != n {
            let w = r.push(ts.last());
            assert(w =~= timers_without(ts, n));
            assert forall|i: int| 0 <= i < w.len() implies exists|j: int| 0 <= j < ts.len() && ts[j] == #[trigger] w[i] by {
                if i < r.len() {
                    assert(w[i] == r[i]);
                } else {
                    assert(ts[ts.len() - 1] == w[i]);
                }
            }
            if distinct_timer_keys(ts) {
                assert(distinct_timer_keys(d)) by {
                    assert forall|a: int, b: int| 0 <= a < b < d.len() implies d[a].0 != d[b].0 by {
                        assert(d[a] == ts[a] && d[b] == ts[b]);
                    }
                }
                assert forall|a: int, b: int| 0 <= a < b < w.len() implies w[a].0 != w[b].0 by {
                    if b == w.len() - 1 {
                        let j = choose|j: int| 0 <= j < d.len() && d[j] == r[a];
                        assert(ts[j] == d[j]);
                        assert(w[a] == r[a]);
                    } else {
                        assert(w[a] == r[a] && w[b] == r[b]);
                    }
                }
            }
            assert(w.drop_last() =~= r);
        } else {
            if distinct_timer_keys(ts) {
                assert forall|a: int, b: int| 0 <= a < b < d.len() implies d[a].0 != d[b].0 by {
                    assert(d[a] == ts[a] && d[b] == ts[b]);
                }
            }
        }
    }
}

/// Stopping or (re)starting a timer keeps one timer per nonce, and a
/// restarted timer reads back its new start.
pub proof fn law_timers_with(ts: Seq<(Seq<char>, u64)>, n: Seq<char>, start: u64)
    ensures
        distinct_timer_keys(ts) ==> distinct_timer_keys(timers_with(ts, n, start)),
        distinct_timer_keys(ts) ==> distinct_timer_keys(timers_without(ts, n)),
        timer_start(timers_with(ts, n, start), n) == Some(start),
        timer_start(timers_without(ts, n), n) is None,
{
    lemma_timers_without_keys(ts, n);
    let r = timers_without(ts, n);
    let w = timers_with(ts, n, start);
    assert(w.drop_last() =~= r);
    if distinct_timer_keys(ts) {
        assert forall|a: int, b: int| 0 <= a < b < w.len() implies w[a].0 != w[b].0 by {
            assert(w[a] == r[a]);
            if b < r.len() {
                assert(w[b] == r[b]);
            }
        }
    }
}

proof fn lemma_nonces_without(fs: Seq<Seq<char>>, n: Seq<char>)
    ensures
        !nonces_without(fs, n).contains(n),
        forall|i: int| 0 <= i < nonces_without(fs, n).len() ==> fs.contains(#[trigger] nonces_without(fs, n)[i]),
        distinct_nonces(fs) ==> distinct_nonces(nonces_without(fs, n)),
    decreases fs.len(),
{
    if fs.len() > 0 {
        let d = fs.drop_last();
        lemma_nonces_without(d, n);
        let r = nonces_without(d, n);
        assert forall|i: int| 0 <= i < r.len() implies fs.contains(#[trigger] r[i]) by {
            let j = choose|j: int| 0 <= j < d.len() && d[j] == r[i];
            assert(fs[j] == d[j]);
        }
        if distinct_nonces(fs) {
            assert forall|a: int, b: int| 0 <= a < b < d.len() implies d[a] != d[b] by {
                assert(d[a] == fs[a] && d[b] == fs[b]);
            }
        }
        if fs.last() != n {
            let w = r.push(fs.last());
            assert(w =~= nonces_without(fs, n));
            assert(!w.contains(n)) by {
                if w.contains(n) {
                    let k = choose|k: int| 0 <= k < w.len() && w[k] == n;
                    if k < r.len() {
                        assert(r[k] == w[k]);
                    }
                }
            }
            assert forall|i: int| 0 <= i < w.len() implies fs.contains(#[trigger] w[i]) by {
                if i < r.len() {
                    assert(w[i] == r[i]);
                } else {
                    assert(fs[fs.len() - 1] == w[i]);
                }
            }
            if distinct_nonces(fs) {
                assert forall|a: int, b: int| 0 <= a < b < w.len() implies w[a] != w[b] by {
                    if b == w.len() - 1 {
                        assert(w[a] == r[a]);
                        let j = choose|j: int| 0 <= j < d.len() && d[j] == r[a];
                        assert(fs[j] == d[j]);
                    } else {
                        assert(w[a] == r[a] && w[b] == r[b]);
                    }
                }
            }
        }
    }
}

/// Well-formed chat state: one timer per nonce and no nonce twice in the
/// failed list.
pub open spec fn well_formed(s: AppStateView) -> bool {
    distinct_timer_keys(s.outbound_timers) && distinct_nonces(s.failed_nonces)
}

/// A new session starts well formed.
pub proof fn law_initial_well_formed(token: Seq<char>)
    ensures
        well_formed(initial_state(token)),
{
}

/// Every event keeps the chat state well formed.
pub proof fn law_step_keeps_well_formed(s: AppStateView, e: AppEventView, c: Clock)
    requires
        well_formed(s),
    ensures
        well_formed(step(s, e, c).state),
{
    let r = step(s, e, c).state;
    match e {
        AppEventView::MessageSent { nonce, timestamp } => {
            law_timers_with(s.outbound_timers, nonce, 0);
            lemma_nonces_without(s.failed_nonces, nonce);
        },
        AppEventView::MessageFailed { nonce } => {
            law_timers_with(s.outbound_timers, nonce, 0);
            if !s.failed_nonces.contains(nonce) {
                let w = s.failed_nonces.push(nonce);
                assert(r.failed_nonces == w);
                assert forall|a: int, b: int| 0 <= a < b < w.len() implies w[a] != w[b] by {
                    if b == w.len() - 1 {
                        assert(w[a] == s.failed_nonces[a]);
                    }
                }
            }
        },
        AppEventView::Terminal(TerminalEvent::Key(k)) => {
            if s.failed_nonces.len() > 0 {
                law_timers_with(s.outbound_timers, s.failed_nonces.last(), c.mono_ns);
            }
            law_timers_with(s.outbound_timers, crate::state::chat_nonce(c.utc_nanos), c.mono_ns);
        },
        _ => {},
    }
}

/// Messages are only ever added at the end; an event may change the status
/// and time stamp of a message already shown, never its nonce, author or
/// content.
pub proof fn law_messages_append_only(s: AppStateView, e: AppEventView, c: Clock)
    ensures
        ({
            let r = step(s, e, c).state;
            &&& s.messages.len() <= r.messages.len()
            &&& forall|i: int| 0 <= i < s.messages.len() ==> {
                &&& (#[trigger] r.messages[i]).nonce == s.messages[i].nonce
                &&& r.messages[i].author == s.messages[i].author
                &&& r.messages[i].content == s.messages[i].content
            }
        }),
{
    match e {
        AppEventView::MessageSent { nonce, .. } => {
            lemma_first_match_valid(s.messages, nonce);
        },
        AppEventView::MessageFailed { nonce } => {
            lemma_first_match_valid(s.messages, nonce);
        },
        AppEventView::Terminal(TerminalEvent::Key(k)) => {
            if s.failed_nonces.len() > 0 {
                lemma_first_match_valid(s.messages, s.failed_nonces.last());
            }
        },
        _ => {},
    }
}

/// Delivering the same message twice shows it once: a message whose nonce is
/// not empty and is not a system notice's is not added again.
pub proof fn law_incoming_idempotent(s: AppStateView, m: MessageView, c: Clock)
    requires
        m.nonce.len() > 0,
        !"err-"@.is_prefix_of(m.nonce),
    ensures
        ({
            let once = step(s, AppEventView::IncomingMessage(m), c);
            let twice = step(once.state, AppEventView::IncomingMessage(m), c);
            twice == once
        }),
{
    let once = receive_message(s, m);
    let msgs = once.messages;
    assert(first_match(msgs, m.nonce) is Some) by {
        lemma_first_match_valid(s.messages, m.nonce);
        if first_match(s.messages, m.nonce) is None {
            assert(msgs == s.messages.push(m));
            assert(msgs.drop_last() =~= s.messages);
        }
    }
}

/// The event loop stops exactly on a pressed Ctrl+C.
pub proof fn law_quit_only_on_ctrl_c(s: AppStateView, e: AppEventView, c: Clock)
    ensures
        step(s, e, c).quit <==> (e matches AppEventView::Terminal(TerminalEvent::Key(k))
            && k.pressed && k.ctrl && k.code == KeyCode::Char('c')),
{
}

/// Every chat message handed to the network has a running timer, started
/// at the time of the event.
pub proof fn law_sent_chat_is_timed(s: AppStateView, e: AppEventView, c: Clock)
    ensures
        step(s, e, c).outbound matches Some(AppEventView::HttpSendChat { nonce, text })
            ==> timer_start(step(s, e, c).state.outbound_timers, nonce) == Some(c.mono_ns),
{
    if s.failed_nonces.len() > 0 {
        law_timers_with(s.outbound_timers, s.failed_nonces.last(), c.mono_ns);
    }
    law_timers_with(s.outbound_timers, crate::state::chat_nonce(c.utc_nanos), c.mono_ns);
}

/// A message the server confirms is delivered, its timer is stopped, and it
/// is no longer listed as failed.
pub proof fn law_confirm_clears_failure(s: AppStateView, nonce: Seq<char>, stamp: Seq<char>, c: Clock)
    requires
        first_match(s.messages, nonce) is Some,
    ensures
        ({
            let r = step(s, AppEventView::MessageSent { nonce, timestamp: stamp }, c).state;
            &&& r.messages[first_match(s.messages, nonce)->0].status == MessageStatus::Delivered
            &&& !r.failed_nonces.contains(nonce)
            &&& timer_start(r.outbound_timers, nonce) is None
        }),
{
    lemma_first_match_valid(s.messages, nonce);
    lemma_nonces_without(s.failed_nonces, nonce);
    law_timers_with(s.outbound_timers, nonce, 0);
}

/// A failure report marks the message failed, stops its timer and lists its
/// nonce for a retry.
pub proof fn law_failure_is_listed(s: AppStateView, nonce: Seq<char>, c: Clock)
    ensures
        ({
            let r = step(s, AppEventView::MessageFailed { nonce }, c).state;
            &&& r.failed_nonces.contains(nonce)
            &&& timer_start(r.outbound_timers, nonce) is None
            &&& (first_match(s.messages, nonce) matches Some(i) ==> r.messages[i].status == MessageStatus::Failed)
        }),
{
    lemma_first_match_valid(s.messages, nonce);
    law_timers_with(s.outbound_timers, nonce, 0);
    let r = mark_failed(s, nonce);
    if !s.failed_nonces.contains(nonce) {
        assert(r.failed_nonces[r.failed_nonces.len() - 1] == nonce);
    }
}

/// Backspace takes back the character just typed.
pub proof fn law_backspace_undoes_char(s: AppStateView, ch: char, c1: Clock, c2: Clock)
    requires
        ch != 'c',
    ensures
        ({
            let typed = key_step(s, KeyPress { code: KeyCode::Char(ch), ctrl: false, pressed: true }, c1);
            let erased = key_step(typed.state, KeyPress { code: KeyCode::Backspace, ctrl: false, pressed: true }, c2);
            erased.state.input_text == s.input_text
        }),
{
    assert(s.input_text.push(ch).drop_last() =~= s.input_text);
}

/// Once known, the clock offset is kept when the gateway reports a new
/// round trip.
pub proof fn law_clock_offset_kept(s: AppStateView, rtt_ms: u64, offset_ms: i64, c: Clock)
    requires
        s.clock_offset_ms is Some,
    ensures
        step(s, AppEventView::UpdateGatewayRtt { rtt_ms, offset_ms }, c).state.clock_offset_ms == s.clock_offset_ms,
        step(s, AppEventView::UpdateGatewayRtt { rtt_ms, offset_ms }, c).state.gateway_rtt_ms == Some(rtt_ms),
{
}


proof fn lemma_first_match_same_nonces(a: Seq<MessageView>, b: Seq<MessageView>, n: Seq<char>)
    requires
        a.len() == b.len(),
        forall|j: int| 0 <= j < a.len() ==> a[j].nonce == b[j].nonce,
    ensures
        first_match(a, n) == first_match(b, n),
    decreases a.len(),
{
    if a.len() > 0 {
        assert forall|j: int| 0 <= j < a.len() - 1 implies a.drop_last()[j].nonce == b.drop_last()[j].nonce by {
            assert(a.drop_last()[j] == a[j] && b.drop_last()[j] == b[j]);
        }
        lemma_first_match_same_nonces(a.drop_last(), b.drop_last(), n);
    }
}

/// A message the gateway forwards is one the chat state shows: the
/// gateway's duplicate check agrees with the state's.
pub proof fn law_forwarded_message_is_shown(
    p: GatewayFrame,
    target: Seq<char>,
    s: AppStateView,
    label: Seq<char>,
    now_ms: u64,
    c: Clock,
)
    ensures
        dispatch(p, target, s.messages, label, now_ms) matches GatewayActionView::Emit(AppEventView::IncomingMessage(m))
            ==> step(s, AppEventView::IncomingMessage(m), c).state.messages == s.messages.push(m),
{
}

/// A gateway session identifies exactly once, on its hello; before that any
/// other frame closes it, and afterwards no frame does.
pub proof fn law_gateway_phases(
    phase: GatewayPhase,
    p: Option<GatewayFrame>,
    token: Seq<char>,
    target: Seq<char>,
    shown: Seq<MessageView>,
    label: Seq<char>,
    now_ms: u64,
)
    ensures
        ({
            let (next, a) = gateway_step(phase, p, token, target, shown, label, now_ms);
            &&& phase == GatewayPhase::Streaming ==> next == GatewayPhase::Streaming && !(a is Close) && !(a is Identify)
            &&& phase == GatewayPhase::AwaitingHello ==> (a is Close || a is Identify)
            &&& phase == GatewayPhase::AwaitingHello ==> (next == GatewayPhase::Streaming <==> a is Identify)
        }),
{
}

/// When the server rejects a message, the reported events leave it failed,
/// its timer stopped and its nonce listed for a retry; if it was not being
/// timed, its stamp shows the rejection.
pub proof fn law_rejected_send_is_listed(
    s: AppStateView,
    nonce: Seq<char>,
    body: Option<String>,
    label: Seq<char>,
    c1: Clock,
    c2: Clock,
)
    requires
        first_match(s.messages, nonce) is Some,
    ensures
        ({
            let events = send_report(nonce, SendOutcome::Rejected(body), label);
            let s1 = step(s, events[0], c1).state;
            let s2 = step(s1, events[1], c2).state;
            let i = first_match(s.messages, nonce)->0;
            let raw = match body { Some(b) => b@, None => "Rejected"@ };
            &&& events.len() == 2
            &&& s2.messages[i].status == MessageStatus::Failed
            &&& s2.failed_nonces.contains(nonce)
            &&& timer_start(s2.outbound_timers, nonce) is None
            &&& (timer_start(s.outbound_timers, nonce) is None ==> s2.messages[i].timestamp == rejection_stamp(label, raw))
        }),
{
    reveal_strlit(" | ❌ ");
    lemma_first_match_valid(s.messages, nonce);
    let events = send_report(nonce, SendOutcome::Rejected(body), label);
    let s1 = step(s, events[0], c1).state;
    law_timers_with(s.outbound_timers, nonce, 0);
    law_timers_with(s1.outbound_timers, nonce, 0);
    assert forall|j: int| 0 <= j < s1.messages.len() implies s1.messages[j].nonce == s.messages[j].nonce by {}
    lemma_first_match_same_nonces(s.messages, s1.messages, nonce);
    let s2 = step(s1, events[1], c2).state;
    if !s1.failed_nonces.contains(nonce) {
        assert(s2.failed_nonces[s2.failed_nonces.len() - 1] == nonce);
    }
}

/// History comes out oldest first: the feed has one entry per message of
/// the page, the page's last (oldest) message first.
pub proof fn law_history_oldest_first(msgs: Seq<DiscordApiMessage>, labels: Seq<Option<Seq<char>>>)
    ensures
        history_feed(msgs, labels) matches Some(f) ==> {
            &&& f.len() == msgs.len()
            &&& forall|k: int| 0 <= k < f.len() ==>
                Some(#[trigger] f[k]) == history_entry(msgs[msgs.len() - 1 - k], labels[msgs.len() - 1 - k])
        },
    decreases msgs.len(),
{
    if msgs.len() > 0 && labels.len() == msgs.len() {
        law_history_oldest_first(msgs.drop_first(), labels.drop_first());
        match history_feed(msgs, labels) {
            Some(f) => {
                let rest = history_feed(msgs.drop_first(), labels.drop_first())->0;
                assert forall|k: int| 0 <= k < f.len() implies
                    Some(#[trigger] f[k]) == history_entry(msgs[msgs.len() - 1 - k], labels[msgs.len() - 1 - k]) by {
                    if k < rest.len() {
                        assert(f[k] == rest[k]);
                        assert(msgs.drop_first()[msgs.len() - 2 - k] == msgs[msgs.len() - 1 - k]);
                        assert(labels.drop_first()[msgs.len() - 2 - k] == labels[msgs.len() - 1 - k]);
                    }
                }
            },
            None => {},
        }
    }
}


/// Typing notices go out at most once per seven seconds: a notice is sent
/// only when the last one is at least that old, and the time of the new one
/// is recorded.
pub proof fn law_typing_notices_spaced(s: AppStateView, e: AppEventView, c: Clock)
    ensures
        step(s, e, c).outbound matches Some(AppEventView::HttpTriggerTyping) ==> {
            &&& (s.last_typing_sent matches Some(t) ==> elapsed_ns(c.mono_ns, t) >= typing_interval_ns())
            &&& step(s, e, c).state.last_typing_sent == Some(c.mono_ns)
            &&& s.target_channel_id.len() > 0
        },
{
}


/// The first `|` at or after `k` is at `i` when none stands in `[k, i)`.
proof fn lemma_first_bar(s: Seq<char>, k: int, i: int)
    requires
        0 <= k <= i < s.len(),
        s[i] == '|',
        forall|j: int| k <= j < i ==> s[j] != '|',
    ensures
        first_occurrence_from(s, "|"@, k) == Some(i),
    decreases i - k,
{
    reveal_strlit("|");
    assert("|"@ =~= seq!['|']);
    assert(s.subrange(k, k + 1) =~= seq![s[k]]);
    if k < i {
        if occurs_at(s, "|"@, k) {
            assert(s.subrange(k, k + 1)[0] == "|"@[0]);
        }
        lemma_first_bar(s, k + 1, i);
    } else {
        assert(occurs_at(s, "|"@, k));
    }
}

/// No `|` at or after `k`.
proof fn lemma_no_bar(s: Seq<char>, k: int)
    requires
        0 <= k <= s.len(),
        forall|j: int| k <= j < s.len() ==> s[j] != '|',
    ensures
        first_occurrence_from(s, "|"@, k) is None,
    decreases s.len() - k,
{
    reveal_strlit("|");
    assert("|"@ =~= seq!['|']);
    if k < s.len() {
        assert(s.subrange(k, k + 1) =~= seq![s[k]]);
        if occurs_at(s, "|"@, k) {
            assert(s.subrange(k, k + 1)[0] == "|"@[0]);
        }
        lemma_no_bar(s, k + 1);
    }
}

/// A text that neither starts nor ends with whitespace is its own trim.
proof fn lemma_trim_unchanged(x: Seq<char>)
    requires
        x.len() > 0,
        !is_whitespace(x[0]),
        !is_whitespace(x.last()),
    ensures
        trim(x) == x,
{
}

/// A clock label is its own time part.
proof fn lemma_label_chars(label: Seq<char>)
    requires
        is_clock_label(label),
    ensures
        forall|j: int| 0 <= j < label.len() ==> label[j] != '|' && !is_whitespace(#[trigger] label[j]),
{
    assert forall|j: int| 0 <= j < label.len() implies label[j] != '|' && !is_whitespace(#[trigger] label[j]) by {
        if j != 2 && j != 5 && j != 8 {
            assert('0' <= label[j] <= '9');
        }
    }
}

/// The feed shows what the state recorded of a delivered message: the time
/// and the round trip of a stamp `"<time> | <n>ms"`, each where its flag is
/// set.
pub proof fn law_round_trip_shown(label: Seq<char>, ms: u64)
    requires
        is_clock_label(label),
    ensures
        meta_text(round_trip_stamp(label, ms), true, true) == round_trip_stamp(label, ms),
        meta_text(round_trip_stamp(label, ms), true, false) == label,
        meta_text(round_trip_stamp(label, ms), false, true) == decimal(ms as nat) + "ms"@,
        meta_text(label, true, true) == label,
{
    reveal_strlit(" | ");
    reveal_strlit("ms");
    reveal_strlit("|");
    lemma_decimal_digits(ms as nat);
    lemma_label_chars(label);
    let d = decimal(ms as nat);
    let tail = d + "ms"@;
    let s = round_trip_stamp(label, ms);
    assert(s =~= label + seq![' ', '|', ' '] + tail);
    assert forall|j: int| 0 <= j < tail.len() implies tail[j] != '|' && !is_whitespace(#[trigger] tail[j]) by {
        if j < d.len() {
            assert(tail[j] == d[j]);
            assert('0' <= d[j] <= '9');
        }
    }
    // The time part.
    assert forall|j: int| 0 <= j < 13 implies s[j] != '|' by {
        if j < 12 {
            assert(s[j] == label[j]);
        }
    }
    lemma_first_bar(s, 0, 13);
    let head = s.take(13);
    assert(head =~= label.push(' '));
    assert(first_segment(s) == head);
    assert(head.drop_last() =~= label);
    assert(trim_start(head) == head);
    assert(trim_end(head) == trim_end(label));
    lemma_trim_unchanged(label);
    assert(time_part(s) == label);
    // The latency part.
    let rest = s.subrange(14, s.len() as int);
    assert(rest =~= seq![' '] + tail);
    assert forall|j: int| 0 <= j < rest.len() implies rest[j] != '|' by {
        if j > 0 {
            assert(rest[j] == tail[j - 1]);
        }
    }
    lemma_no_bar(rest, 0);
    assert(first_segment(rest) == rest);
    assert(rest.drop_first() =~= tail);
    assert(tail.len() > 0);
    assert(trim_start(rest) == trim_start(tail));
    lemma_trim_unchanged(tail);
    assert(trim_start(tail) == tail);
    assert(trim_end(tail) == tail);
    assert(latency_part(s) == tail);
    assert(meta_text(s, true, true) =~= label + " | "@ + tail);
    // A bare label.
    assert forall|j: int| 0 <= j < label.len() implies label[j] != '|' by {}
    lemma_no_bar(label, 0);
    lemma_trim_unchanged(label);
}


/// No event changes the session's token, its channel or the list selection.
pub proof fn law_session_fixed(s: AppStateView, e: AppEventView, c: Clock)
    ensures
        step(s, e, c).state.token == s.token,
        step(s, e, c).state.target_channel_id == s.target_channel_id,
        step(s, e, c).state.list_state == s.list_state,
{
}


/// Enter on a non-empty input sends it as the user's own message: the feed
/// gains one message at its end, written by the user under their current
/// name, with the typed text, shown as sending; the input is cleared, the
/// typing timer is reset, and the message goes to the network under the new
/// message's nonce with a timer started now.
pub proof fn law_enter_sends_own_message(s: AppStateView, ctrl: bool, c: Clock)
    requires
        s.input_text.len() > 0,
    ensures
        ({
            let r = step(s, AppEventView::Terminal(TerminalEvent::Key(KeyPress { code: KeyCode::Enter, ctrl, pressed: true })), c);
            let m = r.state.messages.last();
            &&& r.state.messages.len() == s.messages.len() + 1
            &&& r.state.messages.drop_last() == s.messages
            &&& m.author == s.self_username
            &&& m.content == s.input_text
            &&& m.status == MessageStatus::Sending
            &&& r.state.input_text.len() == 0
            &&& r.state.last_typing_sent is None
            &&& !r.quit
            &&& r.outbound == Some(AppEventView::HttpSendChat { nonce: m.nonce, text: s.input_text })
            &&& timer_start(r.state.outbound_timers, m.nonce) == Some(c.mono_ns)
        }),
{
    let r = step(s, AppEventView::Terminal(TerminalEvent::Key(KeyPress { code: KeyCode::Enter, ctrl, pressed: true })), c);
    assert(r.state.messages.drop_last() =~= s.messages);
    law_timers_with(s.outbound_timers, crate::state::chat_nonce(c.utc_nanos), c.mono_ns);
}

/// Sending a message resets the typing timer: in a set channel, the first
/// character typed after a send triggers a typing notice at once, however
/// recently the last notice went out.
pub proof fn law_send_resets_typing(s: AppStateView, ch: char, c1: Clock, c2: Clock)
    requires
        s.input_text.len() > 0,
        s.target_channel_id.len() > 0,
    ensures
        ({
            let sent = step(s, AppEventView::Terminal(TerminalEvent::Key(KeyPress { code: KeyCode::Enter, ctrl: false, pressed: true })), c1);
            let typed = step(sent.state, AppEventView::Terminal(TerminalEvent::Key(KeyPress { code: KeyCode::Char(ch), ctrl: false, pressed: true })), c2);
            &&& sent.state.last_typing_sent is None
            &&& typed.outbound == Some(AppEventView::HttpTriggerTyping)
            &&& typed.state.last_typing_sent == Some(c2.mono_ns)
            &&& typed.state.input_text == seq![ch]
        }),
{
    let sent = step(s, AppEventView::Terminal(TerminalEvent::Key(KeyPress { code: KeyCode::Enter, ctrl: false, pressed: true })), c1);
    assert(sent.state.input_text.push(ch) =~= seq![ch]);
}

/// Exactly the typing notices, chat sends and history fetches go to the
/// network worker; everything else goes to the chat state. The chat state
/// leaves the network's events alone, and what it hands out goes to the
/// network.
pub proof fn law_network_routing(s: AppStateView, e: AppEventView, c: Clock)
    ensures
        is_network_request(e) <==> (e is HttpTriggerTyping || e is HttpSendChat || e is FetchChannelHistory),
        is_network_request(e) ==> step(s, e, c) == quiet(s),
        step(s, e, c).outbound matches Some(o) ==> is_network_request(o),
{
}

/// The reports of a send and the events the gateway emits all go to the
/// chat state, never back to the network worker.
pub proof fn law_reports_reach_chat_state(
    nonce: Seq<char>,
    outcome: SendOutcome,
    label: Seq<char>,
    phase: GatewayPhase,
    p: Option<GatewayFrame>,
    token: Seq<char>,
    target: Seq<char>,
    shown: Seq<MessageView>,
    now_ms: u64,
)
    ensures
        forall|i: int| 0 <= i < send_report(nonce, outcome, label).len()
            ==> !is_network_request(#[trigger] send_report(nonce, outcome, label)[i]),
        gateway_step(phase, p, token, target, shown, label, now_ms).1 matches GatewayActionView::Emit(ev)
            ==> !is_network_request(ev),
{
}

/// READY names the user: by the display name at `/user/global_name` when it
/// is a non-empty text, else by the user name at `/user/username` when that
/// is a non-empty text; with neither, the user keeps the name they had.
pub proof fn law_ready_names_user(
    p: GatewayPayload,
    f: GatewayFrame,
    token: Seq<char>,
    target: Seq<char>,
    shown: Seq<MessageView>,
    label: Seq<char>,
    now_ms: u64,
)
    requires
        frame_of(f, p),
        p.op == 0,
        opt_text(p.t) == Some("READY"@),
    ensures
        ({
            let a = gateway_step(GatewayPhase::Streaming, Some(f), token, target, shown, label, now_ms).1;
            let g = text_at(p.d@, "/user/global_name"@);
            let u = text_at(p.d@, "/user/username"@);
            let has_g = g is Some && g->0.len() > 0;
            let has_u = u is Some && u->0.len() > 0;
            &&& has_g ==> a == GatewayActionView::Emit(AppEventView::SetSelfUsername(g->0))
            &&& !has_g && has_u ==> a == GatewayActionView::Emit(AppEventView::SetSelfUsername(u->0))
            &&& !has_g && !has_u ==> a == GatewayActionView::Ignore
        }),
{
}

/// A MESSAGE_CREATE in the watched channel is shown unless a message with
/// its non-empty nonce already is: it carries the nonce and content of the
/// data, and its author is the server nickname at `/member/nick` if that is
/// a non-empty text, else the display name at `/author/global_name` if that
/// is, else the user name at `/author/username`, and `Unknown` only when
/// that is absent.
pub proof fn law_created_message_author(
    p: GatewayPayload,
    f: GatewayFrame,
    token: Seq<char>,
    target: Seq<char>,
    shown: Seq<MessageView>,
    label: Seq<char>,
    now_ms: u64,
)
    requires
        frame_of(f, p),
        p.op == 0,
        opt_text(p.t) == Some("MESSAGE_CREATE"@),
        text_at(p.d@, "/channel_id"@) == Some(target),
    ensures
        ({
            let a = gateway_step(GatewayPhase::Streaming, Some(f), token, target, shown, label, now_ms).1;
            let n = text_at(p.d@, "/nonce"@);
            let nonce = match n { Some(x) => x, None => Seq::<char>::empty() };
            let nick = text_at(p.d@, "/member/nick"@);
            let global = text_at(p.d@, "/author/global_name"@);
            let user = text_at(p.d@, "/author/username"@);
            let has_nick = nick is Some && nick->0.len() > 0;
            let has_global = global is Some && global->0.len() > 0;
            &&& (nonce.len() > 0 && first_match(shown, nonce) is Some) ==> a == GatewayActionView::Ignore
            &&& (nonce.len() == 0 || first_match(shown, nonce) is None) ==> {
                &&& a is Emit
                &&& a->Emit_0 is IncomingMessage
                &&& a->Emit_0->IncomingMessage_0.nonce == nonce
                &&& a->Emit_0->IncomingMessage_0.content == match text_at(p.d@, "/content"@) { Some(x) => x, None => Seq::<char>::empty() }
                &&& a->Emit_0->IncomingMessage_0.status == MessageStatus::Delivered
                &&& has_nick ==> a->Emit_0->IncomingMessage_0.author == nick->0
                &&& !has_nick && has_global ==> a->Emit_0->IncomingMessage_0.author == global->0
                &&& !has_nick && !has_global && user is Some ==> a->Emit_0->IncomingMessage_0.author == user->0
                &&& !has_nick && !has_global && user is None ==> a->Emit_0->IncomingMessage_0.author == "Unknown"@
            }
        }),
{
    reveal_strlit("READY");
    reveal_strlit("MESSAGE_CREATE");
    assert("READY"@.len() != "MESSAGE_CREATE"@.len());
}


/// The message an event refers to by nonce is the first one shown with that
/// nonce; there is none exactly when no message shown has it.
pub proof fn law_first_match_is_first(msgs: Seq<MessageView>, n: Seq<char>)
    ensures
        first_match(msgs, n) matches Some(i) ==> {
            &&& 0 <= i < msgs.len()
            &&& msgs[i].nonce == n
            &&& forall|j: int| 0 <= j < i ==> msgs[j].nonce != n
        },
        first_match(msgs, n) is None <==> forall|j: int| 0 <= j < msgs.len() ==> msgs[j].nonce != n,
    decreases msgs.len(),
{
    lemma_first_match_valid(msgs, n);
    if msgs.len() > 0 {
        let d = msgs.drop_last();
        law_first_match_is_first(d, n);
        assert forall|j: int| 0 <= j < d.len() implies d[j] == msgs[j] by {}
        if first_match(msgs, n) is None {
        } else if first_match(d, n) is None {
            assert forall|j: int| 0 <= j < msgs.len() - 1 implies msgs[j].nonce != n by {
                assert(d[j] == msgs[j]);
            }
        }
    }
}

/// An incoming message is shown at the end of the feed when it is a system
/// notice (nonce starting `err-`), has no nonce, or has a nonce no message
/// shown has; otherwise the state is left as it was.
pub proof fn law_incoming_shown_unless_duplicate(s: AppStateView, m: MessageView, c: Clock)
    ensures
        ({
            let r = step(s, AppEventView::IncomingMessage(m), c);
            let fresh = forall|j: int| 0 <= j < s.messages.len() ==> s.messages[j].nonce != m.nonce;
            &&& ("err-"@.is_prefix_of(m.nonce) || m.nonce.len() == 0 || fresh)
                ==> r.state == AppStateView { messages: s.messages.push(m), ..s }
            &&& !("err-"@.is_prefix_of(m.nonce) || m.nonce.len() == 0 || fresh) ==> r.state == s
            &&& !r.quit
            &&& r.outbound is None
        }),
{
    law_first_match_is_first(s.messages, m.nonce);
}

/// A confirmed message is delivered and keeps its nonce, author and
/// content; if it was timed, its stamp becomes `"<now> | <n>ms"` with `n`
/// the whole milliseconds since it was sent, else it takes the stamp the
/// report brings when that is not empty. No other message changes.
pub proof fn law_confirm_stamps_round_trip(s: AppStateView, nonce: Seq<char>, stamp: Seq<char>, c: Clock)
    requires
        first_match(s.messages, nonce) is Some,
    ensures
        ({
            let r = step(s, AppEventView::MessageSent { nonce, timestamp: stamp }, c).state;
            let i = first_match(s.messages, nonce)->0;
            let old_m = s.messages[i];
            let new_m = r.messages[i];
            &&& r.messages.len() == s.messages.len()
            &&& forall|j: int| 0 <= j < s.messages.len() && j != i ==> r.messages[j] == s.messages[j]
            &&& new_m.nonce == old_m.nonce && new_m.author == old_m.author && new_m.content == old_m.content
            &&& new_m.status == MessageStatus::Delivered
            &&& (timer_start(s.outbound_timers, nonce) matches Some(t) ==> {
                let ms: int = if c.mono_ns >= t { (c.mono_ns - t) / 1_000_000 } else { 0 };
                new_m.timestamp == c.label@ + " | "@ + decimal(ms as nat) + "ms"@
            })
            &&& timer_start(s.outbound_timers, nonce) is None
                ==> new_m.timestamp == (if stamp.len() > 0 { stamp } else { old_m.timestamp })
        }),
{
    lemma_first_match_valid(s.messages, nonce);
}

/// Tab retries the most recently failed message: it is shown as sending
/// again, stamped `"<now> | ..."`, timed from now, and its text goes to the
/// network under its nonce. With no failed message, or none shown with that
/// nonce, Tab does nothing.
pub proof fn law_tab_retries_last_failed(s: AppStateView, ctrl: bool, c: Clock)
    ensures
        ({
            let r = step(s, AppEventView::Terminal(TerminalEvent::Key(KeyPress { code: KeyCode::Tab, ctrl, pressed: true })), c);
            let n = s.failed_nonces.last();
            &&& (s.failed_nonces.len() == 0 || first_match(s.messages, n) is None) ==> r == quiet(s)
            &&& (s.failed_nonces.len() > 0 && first_match(s.messages, n) is Some) ==> {
                let i = first_match(s.messages, n)->0;
                &&& r.state.messages.len() == s.messages.len()
                &&& forall|j: int| 0 <= j < s.messages.len() && j != i ==> r.state.messages[j] == s.messages[j]
                &&& r.state.messages[i].nonce == n
                &&& r.state.messages[i].author == s.messages[i].author
                &&& r.state.messages[i].content == s.messages[i].content
                &&& r.state.messages[i].status == MessageStatus::Sending
                &&& r.state.messages[i].timestamp == c.label@ + " | ..."@
                &&& r.state.failed_nonces == s.failed_nonces
                &&& r.outbound == Some(AppEventView::HttpSendChat { nonce: n, text: s.messages[i].content })
                &&& timer_start(r.state.outbound_timers, n) == Some(c.mono_ns)
                &&& !r.quit
            }
        }),
{
    if s.failed_nonces.len() > 0 {
        lemma_first_match_valid(s.messages, s.failed_nonces.last());
        law_timers_with(s.outbound_timers, s.failed_nonces.last(), c.mono_ns);
    }
}

/// A typed character is appended to the input; a typing notice goes out
/// exactly when a channel is set and no notice went out in the last seven
/// seconds; nothing else is handed to the network and the feed is unchanged.
pub proof fn law_typed_char(s: AppStateView, ch: char, c: Clock)
    ensures
        ({
            let r = step(s, AppEventView::Terminal(TerminalEvent::Key(KeyPress { code: KeyCode::Char(ch), ctrl: false, pressed: true })), c);
            let due = match s.last_typing_sent {
                Some(t) => c.mono_ns >= t && c.mono_ns - t >= 7_000_000_000,
                None => true,
            };
            &&& r.state.input_text == s.input_text.push(ch)
            &&& r.state.messages == s.messages
            &&& !r.quit
            &&& (r.outbound == Some(AppEventView::HttpTriggerTyping)) == (due && s.target_channel_id.len() > 0)
            &&& (r.outbound is None) == !(due && s.target_channel_id.len() > 0)
        }),
{
}

/// Released keys change nothing.
pub proof fn law_key_release_ignored(s: AppStateView, k: KeyPress, c: Clock)
    requires
        !k.pressed,
    ensures
        step(s, AppEventView::Terminal(TerminalEvent::Key(k)), c) == quiet(s),
{
}

/// The user's name is the last non-empty one announced; an empty one is
/// ignored.
pub proof fn law_self_name_announced(s: AppStateView, u: Seq<char>, c: Clock)
    ensures
        step(s, AppEventView::SetSelfUsername(u), c).state.self_username == (if u.len() > 0 { u } else { s.self_username }),
        step(s, AppEventView::SetSelfUsername(u), c).state.messages == s.messages,
{
}

/// When the gateway connection closes, a failed system notice saying so is
/// added at the end of the feed, stamped with the current time.
pub proof fn law_gateway_closed_notice(s: AppStateView, c: Clock)
    ensures
        step(s, AppEventView::GatewayClosed, c).state.messages == s.messages.push(MessageView {
            nonce: "err-close"@,
            author: "System"@,
            content: "⚠️ WebSocket closed. Reconnecting..."@,
            timestamp: c.label@,
            status: MessageStatus::Failed,
        }),
{
}

/// The message the user sends is shown as their own, under any display
/// settings.
pub proof fn law_sent_message_is_own(s: AppStateView, ctrl: bool, c: Clock, f: FeedLine, show_time: bool, show_latency: bool)
    requires
        s.input_text.len() > 0,
        ({
            let r = step(s, AppEventView::Terminal(TerminalEvent::Key(KeyPress { code: KeyCode::Enter, ctrl, pressed: true })), c);
            feed_line_of(f, r.state.messages.last(), r.state.self_username, show_time, show_latency)
        }),
    ensures
        f.own,
        f.body@ == "  "@ + s.input_text,
{
}

/// The hello frame is answered by identifying with the token, with the
/// heartbeat period that the hello's `/heartbeat_interval` gives (41250 ms
/// when it gives none), and the session starts streaming.
pub proof fn law_hello_identifies(
    p: GatewayPayload,
    f: GatewayFrame,
    token: Seq<char>,
    target: Seq<char>,
    shown: Seq<MessageView>,
    label: Seq<char>,
    now_ms: u64,
)
    requires
        frame_of(f, p),
        p.op == 10,
    ensures
        gateway_step(GatewayPhase::AwaitingHello, Some(f), token, target, shown, label, now_ms) == (
            GatewayPhase::Streaming,
            GatewayActionView::Identify {
                heartbeat_ms: match field_u64(json_lookup(p.d@, "/heartbeat_interval"@)) { Some(h) => h, None => 41250 },
                frame: identify_frame(token),
            },
        ),
{
}


/// Only channels with a name are listed, all of them, in their order.
pub proof fn law_named_channels_filter(v: Seq<Channel>)
    ensures
        named_channels(v) == v.filter(|c: Channel| c.name@.len() > 0),
    decreases v.len(),
{
    reveal(Seq::filter);
    if v.len() > 0 {
        law_named_channels_filter(v.drop_last());
    }
}

/// A history message is shown delivered, with its nonce text or number
/// (else its id), its display name (else its user name) as author, and its
/// content; its stamp is the local time label when the time parses, else
/// the raw time when it is shorter than 19 bytes, else its bytes 11 to 19.
pub proof fn law_history_entry(m: DiscordApiMessage, label: Option<Seq<char>>)
    ensures
        ({
            let e = history_entry(m, label);
            let b = encode_utf8(m.timestamp@);
            let cut = b.len() >= 19 && is_char_boundary(b, 11) && is_char_boundary(b, 19);
            &&& (label is Some || b.len() < 19 || cut) <==> e is Some
            &&& e matches Some(x) ==> {
                &&& x.nonce == match m.nonce {
                    Some(NonceValue::Text(t)) => t@,
                    Some(NonceValue::Number(t)) => t@,
                    _ => m.id@,
                }
                &&& x.author == match m.author.global_name { Some(g) => g@, None => m.author.username@ }
                &&& x.content == m.content@
                &&& x.status == MessageStatus::Delivered
                &&& (label matches Some(l) ==> x.timestamp == l)
                &&& (label is None && b.len() < 19 ==> x.timestamp == m.timestamp@)
                &&& (label is None && b.len() >= 19 ==> x.timestamp == decode_utf8(b.subrange(11, 19)))
            }
        }),
{
}

/// A message from the gateway is stamped `"<label> | <n>ms"`, with `n` the
/// milliseconds from its creation (its id shifted right by 22 bits, plus the
/// Discord epoch 1420070400000) to `now_ms`, when its id (`"0"` if absent)
/// is a number and that time is not later than now; else just `<label>`.
pub proof fn law_created_message_stamp(
    p: GatewayPayload,
    f: GatewayFrame,
    token: Seq<char>,
    target: Seq<char>,
    shown: Seq<MessageView>,
    label: Seq<char>,
    now_ms: u64,
)
    requires
        frame_of(f, p),
        p.op == 0,
        opt_text(p.t) == Some("MESSAGE_CREATE"@),
        text_at(p.d@, "/channel_id"@) == Some(target),
    ensures
        ({
            let a = gateway_step(GatewayPhase::Streaming, Some(f), token, target, shown, label, now_ms).1;
            let id = match text_at(p.d@, "/id"@) { Some(x) => x, None => "0"@ };
            a matches GatewayActionView::Emit(AppEventView::IncomingMessage(m)) ==> m.timestamp == match parse_u64_spec(id) {
                Some(v) => {
                    let sent: int = v / 4194304 + 1420070400000;
                    if now_ms >= sent { label + " | "@ + decimal((now_ms - sent) as nat) + "ms"@ } else { label }
                },
                None => label,
            }
        }),
{
    reveal_strlit("READY");
    reveal_strlit("MESSAGE_CREATE");
    assert("READY"@.len() != "MESSAGE_CREATE"@.len());
}


/// Leading whitespace removed: a suffix of `s` that does not start with
/// whitespace.
proof fn lemma_trim_start_at(s: Seq<char>) -> (k: int)
    ensures
        0 <= k <= s.len(),
        trim_start(s) == s.subrange(k, s.len() as int),
        trim_start(s).len() > 0 ==> !is_whitespace(trim_start(s)[0]),
    decreases s.len(),
{
    if s.len() > 0 && is_whitespace(s[0]) {
        let k = lemma_trim_start_at(s.drop_first());
        assert(s.drop_first().subrange(k, s.len() - 1) =~= s.subrange(k + 1, s.len() as int));
        k + 1
    } else {
        assert(s.subrange(0, s.len() as int) =~= s);
        0
    }
}

/// Trailing whitespace removed: a prefix of `s` that does not end with
/// whitespace.
proof fn lemma_trim_end_at(s: Seq<char>) -> (k: int)
    ensures
        0 <= k <= s.len(),
        trim_end(s) == s.take(k),
        trim_end(s).len() > 0 ==> !is_whitespace(trim_end(s).last()),
    decreases s.len(),
{
    if s.len() > 0 && is_whitespace(s.last()) {
        let k = lemma_trim_end_at(s.drop_last());
        assert(s.drop_last().take(k) =~= s.take(k));
        k
    } else {
        assert(s.take(s.len() as int) =~= s);
        s.len() as int
    }
}

/// `trim(s)` is a run of `s` that neither starts nor ends with whitespace.
proof fn lemma_trim_run(s: Seq<char>) -> (ab: (int, int))
    ensures
        0 <= ab.0 <= ab.1 <= s.len(),
        trim(s) == s.subrange(ab.0, ab.1),
        trim(s).len() > 0 ==> !is_whitespace(trim(s)[0]) && !is_whitespace(trim(s).last()),
{
    let a = lemma_trim_start_at(s);
    let x = trim_start(s);
    let b = lemma_trim_end_at(x);
    assert(x.take(b) =~= s.subrange(a, a + b));
    if trim(s).len() > 0 {
        assert(trim(s)[0] == x[0]);
    }
    (a, a + b)
}

/// The characters that pass the filter, in order; all of `s` when every
/// character passes.
proof fn lemma_kept_chars(s: Seq<char>, plain: bool)
    ensures
        kept_chars(s, plain).len() <= s.len(),
        forall|j: int| 0 <= j < kept_chars(s, plain).len() ==> {
            let ch = #[trigger] kept_chars(s, plain)[j];
            if plain { keep_in_body(ch) } else { keep_in_message(ch) }
        },
        (forall|j: int| 0 <= j < s.len() ==> (if plain { keep_in_body(#[trigger] s[j]) } else { keep_in_message(s[j]) }))
            ==> kept_chars(s, plain) == s,
    decreases s.len(),
{
    if s.len() > 0 {
        let d = s.drop_last();
        lemma_kept_chars(d, plain);
        let r = kept_chars(d, plain);
        let k = kept_chars(s, plain);
        assert forall|j: int| 0 <= j < k.len() implies {
            let ch = #[trigger] k[j];
            if plain { keep_in_body(ch) } else { keep_in_message(ch) }
        } by {
            if j < r.len() {
                assert(k[j] == r[j]);
            }
        }
        if forall|j: int| 0 <= j < s.len() ==> (if plain { keep_in_body(#[trigger] s[j]) } else { keep_in_message(s[j]) }) {
            assert forall|j: int| 0 <= j < d.len() implies (if plain { keep_in_body(#[trigger] d[j]) } else { keep_in_message(d[j]) }) by {
                assert(d[j] == s[j]);
            }
            assert(s =~= d.push(s.last()));
        }
    }
}

/// The reason shown for a rejected message is readable: at most 80
/// characters, without quotes or braces, without surrounding whitespace,
/// and, for a body without a `message":` part, without control characters.
/// A short clean body is shown as it is.
pub proof fn law_rejection_detail_readable(raw: Seq<char>)
    ensures
        ({
            let d = rejection_detail(raw);
            let plain = first_occurrence_from(raw, "message\":"@, 0) is None;
            &&& d.len() <= 80
            &&& forall|j: int| 0 <= j < d.len() ==> #[trigger] d[j] != '"' && d[j] != '{' && d[j] != '}'
            &&& plain ==> forall|j: int| 0 <= j < d.len() ==> !is_control(#[trigger] d[j])
            &&& d.len() > 0 ==> !is_whitespace(d[0]) && !is_whitespace(d.last())
            &&& (plain && 0 < raw.len() <= 80 && !is_whitespace(raw[0]) && !is_whitespace(raw.last())
                && forall|j: int| 0 <= j < raw.len() ==> #[trigger] keep_in_body(raw[j])) ==> d == raw
        }),
{
    let pat = "message\":"@;
    let body = match first_occurrence_from(raw, pat, 0) {
        Some(i) => raw.subrange(i + pat.len(), raw.len() as int),
        None => raw,
    };
    let plain = first_occurrence_from(raw, pat, 0) is None;
    lemma_kept_chars(body, plain);
    let k = kept_chars(body, plain);
    let cut = at_most(k, 80);
    assert forall|j: int| 0 <= j < cut.len() implies #[trigger] cut[j] == k[j] by {}
    let (a, b) = lemma_trim_run(cut);
    let d = trim(cut);
    assert(d == rejection_detail(raw));
    assert forall|j: int| 0 <= j < d.len() implies #[trigger] d[j] == k[a + j] by {
        assert(d[j] == cut[a + j]);
    }
    assert forall|j: int| 0 <= j < d.len() implies #[trigger] d[j] != '"' && d[j] != '{' && d[j] != '}' by {
        assert(d[j] == k[a + j]);
    }
    if plain {
        assert forall|j: int| 0 <= j < d.len() implies !is_control(#[trigger] d[j]) by {
            assert(d[j] == k[a + j]);
        }
        if 0 < raw.len() <= 80 && !is_whitespace(raw[0]) && !is_whitespace(raw.last())
            && forall|j: int| 0 <= j < raw.len() ==> #[trigger] keep_in_body(raw[j]) {
            assert(k == raw);
            assert(cut == raw);
            lemma_trim_unchanged(raw);
        }
    }
}


/// Backspace removes the last character of the input, if any, and changes
/// nothing else.
pub proof fn law_backspace_drops_last(s: AppStateView, ctrl: bool, c: Clock)
    ensures
        step(s, AppEventView::Terminal(TerminalEvent::Key(KeyPress { code: KeyCode::Backspace, ctrl, pressed: true })), c)
            == quiet(AppStateView {
                input_text: if s.input_text.len() > 0 { s.input_text.drop_last() } else { s.input_text },
                ..s
            }),
{
}

/// A clock offset report sets the offset; a round-trip report sets the
/// round trip, and the offset too when none is known yet.
pub proof fn law_clock_reports(s: AppStateView, o: i64, rtt_ms: u64, offset_ms: i64, c: Clock)
    ensures
        step(s, AppEventView::UpdateClockOffset(o), c) == quiet(AppStateView { clock_offset_ms: Some(o), ..s }),
        s.clock_offset_ms is None ==> step(s, AppEventView::UpdateGatewayRtt { rtt_ms, offset_ms }, c)
            == quiet(AppStateView { clock_offset_ms: Some(offset_ms), gateway_rtt_ms: Some(rtt_ms), ..s }),
{
}

/// Display toggles, scrolling, channel switches, history pages and
/// terminal events other than keys leave the chat state as it is.
pub proof fn law_other_events_ignored(s: AppStateView, e: AppEventView, c: Clock)
    requires
        e is ToggleTimestamp || e is ToggleLatency || e is ScrollChat || e is SwitchChannel
            || e is LoadChannelHistory || e == AppEventView::Terminal(TerminalEvent::Other),
    ensures
        step(s, e, c) == quiet(s),
{
}

/// The header of a message starts with its author and ends with its status
/// marker: ` [...]` while sending, ` [❌]` when failed, none when delivered.
pub proof fn law_header_marks_status(m: MessageView, show_time: bool, show_latency: bool)
    ensures
        ({
            let h = header_text(m, show_time, show_latency);
            &&& m.author.is_prefix_of(h)
            &&& m.status == MessageStatus::Sending ==> ("  [...]"@).is_suffix_of(h)
            &&& m.status == MessageStatus::Failed ==> ("  [❌]"@).is_suffix_of(h)
            &&& m.status == MessageStatus::Delivered ==> h == m.author + (
                if meta_text(m.timestamp, show_time, show_latency).len() > 0 {
                    " ["@ + meta_text(m.timestamp, show_time, show_latency) + "]"@
                } else {
                    Seq::empty()
                })
        }),
{
    reveal_strlit(" [...]");
    reveal_strlit(" [❌]");
    reveal_strlit("  [...]");
    reveal_strlit("  [❌]");
    reveal_strlit(" ");
    let h = header_text(m, show_time, show_latency);
    let meta = meta_text(m.timestamp, show_time, show_latency);
    let mid = if meta.len() > 0 { " ["@ + meta + "]"@ } else { Seq::<char>::empty() };
    assert(h.take(m.author.len() as int) =~= m.author);
    if m.status == MessageStatus::Sending {
        assert(h =~= m.author + mid + "  [...]"@);
        assert(h.subrange(h.len() - 7, h.len() as int) =~= "  [...]"@);
    }
    if m.status == MessageStatus::Failed {
        assert(h =~= m.author + mid + "  [❌]"@);
        assert(h.subrange(h.len() - 5, h.len() as int) =~= "  [❌]"@);
    }
    if m.status == MessageStatus::Delivered {
        assert(h =~= m.author + mid);
    }
}

} // verus!
