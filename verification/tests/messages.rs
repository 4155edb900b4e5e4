use std::collections::HashMap;

use execution_processes::aggregate::{aggregate_stream_events, Draft};
use execution_processes::event::{read_event, StreamEvent};
use execution_processes::message::{build_message, message_to_json, Block, Message};
use serde_json::Value;

fn json(text: &str) -> Value {
    serde_json::from_str(text).unwrap()
}

fn event(text: &str) -> Value {
    json(&format!(r#"{{"type": "stream_event", "event": {}}}"#, text))
}

fn start(role: &str) -> Value {
    event(&format!(
        r#"{{"type": "message_start", "message": {{"role": "{}"}}}}"#,
        role
    ))
}

fn block(index: i64, kind: &str, text: &str) -> Value {
    event(&format!(
        r#"{{"type": "content_block_start", "index": {}, "content_block": {{"type": "{}", "text": "{}"}}}}"#,
        index, kind, text
    ))
}

fn text(index: i64, piece: &str) -> Value {
    event(&format!(
        r#"{{"type": "content_block_delta", "index": {}, "delta": {{"type": "text_delta", "text": "{}"}}}}"#,
        index, piece
    ))
}

fn input(index: i64, piece: &str) -> Value {
    event(&format!(
        r#"{{"type": "content_block_delta", "index": {}, "delta": {{"type": "input_json_delta", "partial_json": "{}"}}}}"#,
        index, piece
    ))
}

fn stop() -> Value {
    event(r#"{"type": "content_block_stop", "index": 0}"#)
}

fn message(role: &str, said: &[&str]) -> Value {
    let content: Vec<Value> = said
        .iter()
        .map(|t| json(&format!(r#"{{"type": "text", "text": "{}"}}"#, t)))
        .collect();
    let mut object = serde_json::Map::new();
    object.insert("role".to_string(), Value::from(role));
    object.insert("content".to_string(), Value::from(content));
    Value::Object(object)
}

fn owned(kind: &str, text: &str) -> Block {
    Block { kind: kind.to_string(), text: text.to_string() }
}

#[test]
fn message_lists_text_blocks_by_index() {
    let mut blocks = HashMap::new();
    for (index, kind, text) in [
        (12, "text", "last"),
        (-4, "text", "first"),
        (3, "tool_use", "{}"),
        (5, "text", ""),
        (4, "text", "middle"),
    ] {
        blocks.insert(index, owned(kind, text));
    }
    let built = build_message(&mut blocks, &Some("user".to_string()));
    assert_eq!(built.role, "user");
    assert_eq!(built.texts, vec!["first", "middle", "last"]);
    assert!(blocks.is_empty());
}

#[test]
fn message_without_role_is_the_assistants() {
    let mut blocks = HashMap::new();
    blocks.insert(0, owned("text", "hi"));
    let built = build_message(&mut blocks, &None);
    assert_eq!(built.role, "assistant");
    assert_eq!(built.texts, vec!["hi"]);
    let empty = build_message(&mut blocks, &None);
    assert!(empty.texts.is_empty());
}

#[test]
fn message_is_written_as_json() {
    let written = message_to_json(Message {
        role: "user".to_string(),
        texts: vec!["a".to_string(), "b\"c".to_string()],
    });
    assert_eq!(
        written,
        json(
            r#"{"role": "user", "content": [{"type": "text", "text": "a"}, {"type": "text", "text": "b\"c"}]}"#
        )
    );
    let bare = message_to_json(Message { role: String::new(), texts: Vec::new() });
    assert_eq!(bare, json(r#"{"role": "", "content": []}"#));
}

#[test]
fn events_are_read() {
    assert!(matches!(
        read_event(&start("user")),
        StreamEvent::MessageStart { role: Some(role) } if role == "user"
    ));
    assert!(matches!(
        read_event(&event(r#"{"type": "message_start", "message": {"role": 1}}"#)),
        StreamEvent::MessageStart { role: None }
    ));
    assert!(matches!(
        read_event(&event(r#"{"type": "message_start"}"#)),
        StreamEvent::MessageStart { role: None }
    ));
    assert!(matches!(
        read_event(&block(2, "tool_use", "t")),
        StreamEvent::BlockStart { index: 2, kind, text } if kind == "tool_use" && text == "t"
    ));
    assert!(matches!(
        read_event(&text(-1, "piece")),
        StreamEvent::TextDelta { index: -1, text } if text == "piece"
    ));
    assert!(matches!(
        read_event(&input(6, "in")),
        StreamEvent::InputDelta { index: 6, text } if text == "in"
    ));
    assert!(matches!(read_event(&stop()), StreamEvent::Idle));
    assert!(matches!(read_event(&json(r#"{"type": "result"}"#)), StreamEvent::Foreign));
    assert!(matches!(read_event(&json("[]")), StreamEvent::Foreign));
}

#[test]
fn events_have_defaults() {
    assert!(matches!(
        read_event(&event(r#"{"type": "content_block_start", "content_block": {}}"#)),
        StreamEvent::BlockStart { index: 0, kind, text } if kind == "text" && text.is_empty()
    ));
    for index in ["1.5", "\"2\"", "18446744073709551615", "null"] {
        let read = read_event(&event(&format!(
            r#"{{"type": "content_block_start", "index": {}, "content_block": {{"type": 1, "text": 2}}}}"#,
            index
        )));
        assert!(matches!(
            read,
            StreamEvent::BlockStart { index: 0, kind, text } if kind == "text" && text.is_empty()
        ));
    }
}

#[test]
fn events_that_lack_a_part_are_idle() {
    for broken in [
        r#"{"index": 1}"#,
        r#"{"type": 5}"#,
        r#"{"type": "content_block_start", "index": 1}"#,
        r#"{"type": "content_block_delta", "index": 1}"#,
        r#"{"type": "content_block_delta", "delta": {"text": "x"}}"#,
        r#"{"type": "content_block_delta", "delta": {"type": "text_delta"}}"#,
        r#"{"type": "content_block_delta", "delta": {"type": "text_delta", "partial_json": "x"}}"#,
        r#"{"type": "content_block_delta", "delta": {"type": "input_json_delta", "text": "x"}}"#,
        r#"{"type": "content_block_delta", "delta": {"type": "signature_delta", "text": "x"}}"#,
        r#"{"type": "ping"}"#,
        "null",
    ] {
        assert!(matches!(read_event(&event(broken)), StreamEvent::Idle));
    }
}

#[test]
fn pieces_make_one_message() {
    let events = [
        start("assistant"),
        block(0, "text", "He"),
        text(0, "llo"),
        text(0, " you"),
        stop(),
        event(r#"{"type": "message_stop"}"#),
    ];
    assert_eq!(aggregate_stream_events(&events), vec![message("assistant", &["Hello you"])]);
}

#[test]
fn message_start_ends_the_message_before() {
    let events = [
        start("user"),
        text(0, "question"),
        start("assistant"),
        text(1, "b"),
        text(0, "a"),
        event(r#"{"type": "message_start"}"#),
        text(0, "more"),
    ];
    let messages = aggregate_stream_events(&events);
    assert_eq!(
        messages,
        vec![
            message("user", &["question"]),
            message("assistant", &["a", "b"]),
            message("assistant", &["more"]),
        ]
    );
    let mut parted = aggregate_stream_events(&events[..2]);
    parted.extend(aggregate_stream_events(&events[2..]));
    assert_eq!(messages, parted);
}

#[test]
fn tools_are_skipped() {
    let events = [
        start("assistant"),
        block(0, "tool_use", ""),
        input(0, "{}"),
        start("assistant"),
        input(1, "{}"),
        text(1, "not shown"),
        text(2, "shown"),
        input(2, "!"),
    ];
    assert_eq!(aggregate_stream_events(&events), vec![message("assistant", &["shown!"])]);
}

#[test]
fn empty_messages_are_left_out() {
    assert!(aggregate_stream_events(&[]).is_empty());
    assert!(aggregate_stream_events(&[start("user"), start("user")]).is_empty());
    assert!(aggregate_stream_events(&[start("user"), block(0, "text", ""), stop()]).is_empty());
}

#[test]
fn block_start_replaces_a_block() {
    let events = [text(0, "old"), block(0, "text", "new"), text(0, "er")];
    assert_eq!(aggregate_stream_events(&events), vec![message("assistant", &["newer"])]);
}

#[test]
fn foreign_values_are_handed_on() {
    let foreign = json(r#"{"type": "result", "cost": 0.25, "list": [1, null, true]}"#);
    let events = [text(0, "a"), foreign.clone(), text(0, "b")];
    assert_eq!(
        aggregate_stream_events(&events),
        vec![foreign, message("assistant", &["ab"])]
    );
}

#[test]
fn idle_events_change_nothing() {
    let events = [start("user"), text(0, "a"), text(0, "b")];
    let expected = aggregate_stream_events(&events);
    for at in 0..=events.len() {
        let mut more = events.to_vec();
        more.insert(at, stop());
        assert_eq!(aggregate_stream_events(&more), expected);
    }
}

#[test]
fn pieces_for_other_blocks_do_not_matter() {
    let one = [text(0, "a"), text(1, "x"), input(2, "{"), text(0, "b"), text(1, "y")];
    let other = [input(2, "{"), text(1, "x"), text(1, "y"), text(0, "a"), text(0, "b")];
    assert_eq!(aggregate_stream_events(&one), aggregate_stream_events(&other));
    assert_eq!(aggregate_stream_events(&one), vec![message("assistant", &["ab", "xy"])]);
}

#[test]
fn cut_into_pieces_does_not_matter() {
    let whole = [start("user"), text(0, "hello"), text(1, "x"), text(0, "!")];
    let expected = aggregate_stream_events(&whole);
    assert_eq!(expected, vec![message("user", &["hello!", "x"])]);
    for at in 0..=5 {
        let (head, tail) = "hello".split_at(at);
        let cut = [
            start("user"),
            text(0, head),
            text(0, tail),
            text(1, "x"),
            text(0, "!"),
        ];
        assert_eq!(aggregate_stream_events(&cut), expected);
    }
}

#[test]
fn completed_messages_stay() {
    let events = [start("user"), text(0, "a"), start("user"), text(0, "b"), start("user")];
    let all = aggregate_stream_events(&events);
    assert_eq!(all[..1], aggregate_stream_events(&events[..3])[..]);
    assert_eq!(all, aggregate_stream_events(&events[..4]));
}

#[test]
fn draft_hands_messages_out() {
    let mut draft = Draft::new();
    assert!(draft.finish().is_none());
    assert!(draft
        .apply(StreamEvent::MessageStart { role: Some("user".to_string()) })
        .is_none());
    assert!(draft
        .apply(StreamEvent::TextDelta { index: 9, text: "hey".to_string() })
        .is_none());
    assert!(draft.apply(StreamEvent::Idle).is_none());
    assert!(draft.apply(StreamEvent::Foreign).is_none());
    let message = draft.apply(StreamEvent::MessageStart { role: None }).unwrap();
    assert_eq!(message.role, "user");
    assert_eq!(message.texts, vec!["hey"]);
    assert!(draft.blocks.is_empty());
    assert_eq!(draft.role, Some("user".to_string()));
}
