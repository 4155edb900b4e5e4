//! The lines of an execution log.
//!
//! Each line of a log is a JSON object. What the agent wrote to its standard output
//! stands under `Stdout`, as a string that is a JSON object in turn: the payload of
//! the line. Only payloads of the type `stream_event` matter here, and the agent's
//! thinking is noise.
use crate::json::{member_of, parse_value, parsed_tree, text_member, trees, value_tree, JsonTree};
use crate::text::{lines, lines_of, same_text, texts};
use vstd::prelude::*;

verus! {

/// Whether a payload says its type and is no noise. Noise is a count of thinking
/// tokens and a piece of thinking; so is a payload that lacks what is needed to
/// tell.
pub open spec fn is_kept(payload: JsonTree) -> bool {
    match payload.text_member("type"@) {
        Some(kind) => {
            &&& kind == "system"@ ==> tells_other(payload, "subtype"@, "thinking_tokens"@)
            &&& kind == "stream_event"@ ==> match payload.member("event"@) {
                Some(event) => is_kept_event(event),
                None => false,
            }
        },
        None => false,
    }
}

/// Whether the event of a stream event says its type and is no piece of thinking.
pub open spec fn is_kept_event(event: JsonTree) -> bool {
    match event.text_member("type"@) {
        Some(kind) => kind == "content_block_delta"@ ==> match event.member("delta"@) {
            Some(delta) => tells_other(delta, "type"@, "thinking_delta"@),
            None => false,
        },
        None => false,
    }
}

/// Whether an object has a string under `key`, and one other than `text`.
pub open spec fn tells_other(object: JsonTree, key: Seq<char>, text: Seq<char>) -> bool {
    object.text_member(key) is Some && object.text_member(key) != Some(text)
}

/// Whether a payload is a stream event.
pub open spec fn is_stream_event(payload: JsonTree) -> bool {
    payload.text_member("type"@) == Some("stream_event"@)
}

/// The payload of a line: what its `Stdout` string spells, unless a part of the
/// line is not as it should be or the payload is noise.
pub open spec fn line_payload(line: Seq<char>) -> Option<JsonTree> {
    match parsed_tree(line) {
        Some(outer) => match outer.text_member("Stdout"@) {
            Some(inner) => match parsed_tree(inner) {
                Some(payload) => if is_kept(payload) {
                    Some(payload)
                } else {
                    None
                },
                None => None,
            },
            None => None,
        },
        None => None,
    }
}

/// The stream event of a line, if its payload is one.
pub open spec fn line_event(line: Seq<char>) -> Option<JsonTree> {
    match line_payload(line) {
        Some(payload) => if is_stream_event(payload) {
            Some(payload)
        } else {
            None
        },
        None => None,
    }
}

/// The stream events of the given lines, in their order.
pub open spec fn line_events(given: Seq<Seq<char>>) -> Seq<JsonTree>
    decreases given.len(),
{
    if given.len() == 0 {
        Seq::empty()
    } else {
        match line_event(given.last()) {
            Some(event) => line_events(given.drop_last()).push(event),
            None => line_events(given.drop_last()),
        }
    }
}

/// The stream events of a log.
pub open spec fn log_events(raw: Seq<char>) -> Seq<JsonTree> {
    line_events(lines_of(raw))
}

/// Whether an object has a string under `key`, and one other than `text`.
fn says_other(object: &serde_json::Value, key: &str, text: &str) -> (other: bool)
    ensures
        other == tells_other(value_tree(*object), key@, text@),
{
    match text_member(object, key) {
        Some(found) => !same_text(found, text),
        None => false,
    }
}

/// Whether the event of a stream event says its type and is no piece of thinking.
pub fn keeps_event(event: &serde_json::Value) -> (kept: bool)
    ensures
        kept == is_kept_event(value_tree(*event)),
{
    match text_member(event, "type") {
        Some(kind) => if same_text(kind, "content_block_delta") {
            match member_of(event, "delta") {
                Some(delta) => says_other(delta, "type", "thinking_delta"),
                None => false,
            }
        } else {
            true
        },
        None => false,
    }
}

/// Whether a payload says its type and is no noise.
pub fn keeps_payload(payload: &serde_json::Value) -> (kept: bool)
    ensures
        kept == is_kept(value_tree(*payload)),
{
    match text_member(payload, "type") {
        Some(kind) => {
            if same_text(kind, "system") && !says_other(payload, "subtype", "thinking_tokens") {
                return false;
            }
            if same_text(kind, "stream_event") {
                match member_of(payload, "event") {
                    Some(event) => keeps_event(event),
                    None => false,
                }
            } else {
                true
            }
        },
        None => false,
    }
}

/// Whether a payload is a stream event.
pub fn tells_stream_event(payload: &serde_json::Value) -> (told: bool)
    ensures
        told == is_stream_event(value_tree(*payload)),
{
    match text_member(payload, "type") {
        Some(kind) => same_text(kind, "stream_event"),
        None => false,
    }
}

/// The payload of a line, if it has one and it is no noise.
pub fn parse_log_line(line: &str) -> (payload: Option<serde_json::Value>)
    ensures
        match payload {
            Some(value) => line_payload(line@) == Some(value_tree(value)),
            None => line_payload(line@) is None,
        },
{
    let outer = match parse_value(line) {
        Some(outer) => outer,
        None => {
            return None;
        },
    };
    let inner = match text_member(&outer, "Stdout") {
        Some(inner) => inner,
        None => {
            return None;
        },
    };
    match parse_value(inner) {
        Some(payload) => if keeps_payload(&payload) {
            Some(payload)
        } else {
            None
        },
        None => None,
    }
}

/// The stream events of a log, in the order of its lines.
pub fn read_stream_events(raw: &str) -> (events: Vec<serde_json::Value>)
    ensures
        trees(events@) == log_events(raw@),
{
    let given = lines(raw);
    let ghost all = lines_of(raw@);
    let mut events: Vec<serde_json::Value> = Vec::new();
    assert(all.take(0) =~= Seq::<Seq<char>>::empty());
    let mut i: usize = 0;
    while i < given.len()
        invariant
            i <= given.len(),
            all == texts(given@),
            trees(events@) == line_events(all.take(i as int)),
        decreases given.len() - i,
    {
        let ghost events_before = events@;
        assert(all.take(i + 1).drop_last() =~= all.take(i as int));
        assert(all.take(i + 1).last() == given@[i as int]@);
        if let Some(payload) = parse_log_line(given[i].as_str()) {
            if tells_stream_event(&payload) {
                events.push(payload);
                assert(trees(events@) =~= trees(events_before).push(value_tree(payload)));
            }
        }
        i += 1;
    }
    assert(all.take(all.len() as int) =~= all);
    events
}

} // verus!
