//! Logs of execution processes.
//!
//! A coding agent runs as an execution process and leaves a log of JSON lines.
//! This library turns such a log into the messages that it holds, cuts them into
//! pages, and decides what a WebSocket relay does next. Every function states its
//! behaviour in a contract. Verus proves them all but those of the calls into
//! `serde_json`, in `json`, and of `String::push`, in `text`.
pub mod aggregate;
pub mod aggregate_laws;
pub mod draft_laws;
pub mod event;
pub mod event_laws;
pub mod json;
pub mod json_laws;
pub mod log_laws;
pub mod log_line_laws;
pub mod log_lines;
pub mod logs;
pub mod message;
pub mod message_laws;
pub mod page;
pub mod page_laws;
pub mod raw_logs;
pub mod relay;
pub mod relay_laws;
pub mod relay_step_laws;
pub mod stream_laws;
pub mod text;
pub mod text_laws;
