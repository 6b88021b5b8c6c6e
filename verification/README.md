# discord_tui

The logic of a terminal Discord client, verified with Verus.

- `src/state.rs`: the chat state and `step`, how each event changes it
  (typing, sending, retrying, delivery and failure reports, incoming
  messages); `AppState::handle_event_at` follows `step` exactly.
- `src/gateway.rs`: reading gateway payloads and the session's decisions
  (identify on hello, names on READY, messages on MESSAGE_CREATE).
- `src/http.rs`: REST addresses, the history page turned into the feed,
  and how a send's outcome is reported.
- `src/view.rs`: the text of feed lines, titles and modal boxes.
- `src/startup.rs`: reading the channel id from a link.
- `src/text.rs`, `src/json.rs`, `src/clock.rs`: text primitives, JSON field
  lookup and clock readings.
- `src/laws.rs`: properties across events and modules.

`app/` holds the terminal, network and file I/O around the library.
