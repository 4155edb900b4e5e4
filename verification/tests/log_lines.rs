use execution_processes::json::{integer_member, text_member};
use execution_processes::log_lines::{
    keeps_event, keeps_payload, parse_log_line, read_stream_events, tells_stream_event,
};
use execution_processes::text::lines;
use serde_json::Value;

fn json(text: &str) -> Value {
    serde_json::from_str(text).unwrap()
}

fn line(payload: &str) -> String {
    let mut outer = serde_json::Map::new();
    outer.insert("Stdout".to_string(), Value::String(payload.to_string()));
    Value::Object(outer).to_string()
}

#[test]
fn lines_end_at_line_feeds() {
    assert_eq!(lines("a\r\nb\n\nc\r"), vec!["a", "b", "", "c\r"]);
    assert_eq!(lines("a\rb\r\r\nc"), vec!["a\rb\r", "c"]);
    assert_eq!(lines("\r\n"), vec![""]);
}

#[test]
fn lines_need_no_last_line_feed() {
    assert_eq!(lines("one\ntwo"), vec!["one", "two"]);
    assert_eq!(lines("one\ntwo\n"), vec!["one", "two"]);
    assert_eq!(lines("\n"), vec![""]);
    assert!(lines("").is_empty());
}

#[test]
fn lines_agree_with_the_standard_library() {
    for text in ["", "\r", "\r\r\n\r", "\n\r\n\n", "größe\r\n\u{1F980}\n", "a\n\rb", "x\r\n"] {
        assert_eq!(lines(text), text.lines().collect::<Vec<&str>>());
    }
}

#[test]
fn written_line_is_one_line_more() {
    assert_eq!(lines("one\ntwo\nthree\n").len(), lines("one\ntwo\n").len() + 1);
}

#[test]
fn members_are_read_by_kind() {
    let value = json(r#"{"a": "x", "b": -7, "c": 1.5, "d": 18446744073709551615, "e": null}"#);
    assert_eq!(text_member(&value, "a"), Some("x"));
    assert_eq!(text_member(&value, "b"), None);
    assert_eq!(text_member(&value, "z"), None);
    assert_eq!(integer_member(&value, "b"), Some(-7));
    assert_eq!(integer_member(&value, "a"), None);
    assert_eq!(integer_member(&value, "c"), None);
    assert_eq!(integer_member(&value, "d"), None);
    assert_eq!(integer_member(&value, "e"), None);
    assert_eq!(text_member(&json("[1]"), "a"), None);
    assert_eq!(text_member(&json(r#"{"a": "x", "a": "y"}"#), "a"), Some("y"));
}

#[test]
fn payload_of_a_line_is_parsed() {
    let payload = parse_log_line(&line(r#"{"type": "result", "n": 1}"#));
    assert_eq!(payload, Some(json(r#"{"type": "result", "n": 1}"#)));
}

#[test]
fn broken_lines_have_no_payload() {
    assert_eq!(parse_log_line(""), None);
    assert_eq!(parse_log_line("no json"), None);
    assert_eq!(parse_log_line(r#"{"Stderr": "{\"type\": \"result\"}"}"#), None);
    assert_eq!(parse_log_line(r#"{"Stdout": {"type": "result"}}"#), None);
    assert_eq!(parse_log_line(r#"{"Stdout": "plain text"}"#), None);
    assert_eq!(parse_log_line(&line(r#"{"kind": "result"}"#)), None);
    assert_eq!(parse_log_line(&line(r#"{"type": 3}"#)), None);
}

#[test]
fn thinking_tokens_are_noise() {
    assert!(!keeps_payload(&json(r#"{"type": "system", "subtype": "thinking_tokens"}"#)));
    assert!(!keeps_payload(&json(r#"{"type": "system"}"#)));
    assert!(!keeps_payload(&json(r#"{"type": "system", "subtype": 1}"#)));
    assert!(keeps_payload(&json(r#"{"type": "system", "subtype": "init"}"#)));
    assert!(keeps_payload(&json(r#"{"type": "user", "subtype": "thinking_tokens"}"#)));
}

#[test]
fn thinking_deltas_are_noise() {
    let delta = |kind: &str| {
        json(&format!(
            r#"{{"type": "stream_event", "event": {{"type": "content_block_delta", "delta": {{"type": "{}"}}}}}}"#,
            kind
        ))
    };
    assert!(!keeps_payload(&delta("thinking_delta")));
    assert!(keeps_payload(&delta("text_delta")));
    assert!(!keeps_payload(&json(r#"{"type": "stream_event"}"#)));
    assert!(!keeps_payload(&json(r#"{"type": "stream_event", "event": {}}"#)));
    assert!(!keeps_payload(&json(
        r#"{"type": "stream_event", "event": {"type": "content_block_delta"}}"#
    )));
    assert!(!keeps_payload(&json(
        r#"{"type": "stream_event", "event": {"type": "content_block_delta", "delta": {}}}"#
    )));
    assert!(keeps_payload(&json(
        r#"{"type": "stream_event", "event": {"type": "message_stop"}}"#
    )));
    assert!(keeps_event(&json(r#"{"type": "ping"}"#)));
    assert!(!keeps_event(&json("null")));
}

#[test]
fn stream_events_are_told_by_type() {
    assert!(tells_stream_event(&json(r#"{"type": "stream_event"}"#)));
    assert!(!tells_stream_event(&json(r#"{"type": "assistant"}"#)));
    assert!(!tells_stream_event(&json("7")));
    assert!(!tells_stream_event(&json(r#"{"type": "stream_even"}"#)));
    assert!(!tells_stream_event(&json(r#"{"type": "stream_events"}"#)));
    assert!(!tells_stream_event(&json(r#"{"type": "stream_even\u00fc"}"#)));
    assert!(!tells_stream_event(&json(r#"{"type": ""}"#)));
}

#[test]
fn only_stream_events_of_a_log_are_read() {
    let stop = r#"{"type": "stream_event", "event": {"type": "message_stop"}}"#;
    let start = r#"{"type": "stream_event", "event": {"type": "message_start"}}"#;
    let thinking = r#"{"type": "stream_event", "event": {"type": "content_block_delta", "delta": {"type": "thinking_delta"}}}"#;
    let raw = [
        line(start),
        "garbage".to_string(),
        line(r#"{"type": "result"}"#),
        line(thinking),
        line(stop),
    ]
    .join("\r\n");
    assert_eq!(read_stream_events(&raw), vec![json(start), json(stop)]);
    assert!(read_stream_events("").is_empty());
}
