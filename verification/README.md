# execution_processes

Logs of execution processes: what a coding agent has said, page by page, and live over
a WebSocket. The library is written in Rust and verified with Verus.

- `src/log_lines.rs` finds the stream events among the lines of a log and drops noise.
- `src/event.rs`, `src/message.rs` and `src/aggregate.rs` make messages of stream events.
- `src/page.rs` and `src/logs.rs` answer what is asked of a log: a page of its messages,
  or the latest one.
- `src/relay.rs` and `src/raw_logs.rs` decide what a relay between a stream and a
  WebSocket does next.
- `src/json.rs` and `src/text.rs` hold the calls into `serde_json` and the standard
  library whose contracts are trusted.
- `src/*_laws.rs` state and prove what holds of all of this together.
- `app/` serves it over HTTP with axum, for any server that implements `Deployment`.
