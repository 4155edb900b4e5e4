//! Stream events: what the agent reports while it writes a message.
use crate::json::{integer_member, member_of, text_member, value_tree, JsonTree};
use crate::text::{maybe_text, same_text};
use vstd::prelude::*;

verus! {

/// A stream event.
#[derive(Debug)]
pub enum StreamEvent {
    /// A value that reports no event of a stream.
    Foreign,
    /// A message starts; its role may be announced.
    MessageStart { role: Option<String> },
    /// A content block starts.
    BlockStart { index: i64, kind: String, text: String },
    /// A piece of text for a block.
    TextDelta { index: i64, text: String },
    /// A piece of the input that a tool is called with, for a block.
    InputDelta { index: i64, text: String },
    /// An event that changes nothing.
    Idle,
}

/// What a stream event holds.
pub enum EventModel {
    Foreign,
    MessageStart { role: Option<Seq<char>> },
    BlockStart { index: i64, kind: Seq<char>, text: Seq<char> },
    TextDelta { index: i64, text: Seq<char> },
    InputDelta { index: i64, text: Seq<char> },
    Idle,
}

impl View for StreamEvent {
    type V = EventModel;

    open spec fn view(&self) -> EventModel {
        match *self {
            StreamEvent::Foreign => EventModel::Foreign,
            StreamEvent::MessageStart { role } => EventModel::MessageStart {
                role: maybe_text(role),
            },
            StreamEvent::BlockStart { index, kind, text } => EventModel::BlockStart {
                index,
                kind: kind@,
                text: text@,
            },
            StreamEvent::TextDelta { index, text } => EventModel::TextDelta { index, text: text@ },
            StreamEvent::InputDelta { index, text } => EventModel::InputDelta {
                index,
                text: text@,
            },
            StreamEvent::Idle => EventModel::Idle,
        }
    }
}

/// The index of the block that an event is about; the first where it names none.
pub open spec fn block_index(event: JsonTree) -> i64 {
    match event.integer_member("index"@) {
        Some(index) => index,
        None => 0,
    }
}

/// The string under `key`, or `default` where there is none.
pub open spec fn text_or(object: JsonTree, key: Seq<char>, default: Seq<char>) -> Seq<char> {
    match object.text_member(key) {
        Some(text) => text,
        None => default,
    }
}

/// The start of a message: its role stands under `message` and `role`.
pub open spec fn message_start(event: JsonTree) -> EventModel {
    EventModel::MessageStart {
        role: match event.member("message"@) {
            Some(message) => message.text_member("role"@),
            None => None,
        },
    }
}

/// The start of a block: its type and first text stand under `content_block`.
pub open spec fn block_start(event: JsonTree) -> EventModel {
    match event.member("content_block"@) {
        Some(block) => EventModel::BlockStart {
            index: block_index(event),
            kind: text_or(block, "type"@, "text"@),
            text: text_or(block, "text"@, ""@),
        },
        None => EventModel::Idle,
    }
}

/// A piece of a block: what it is and what it adds stand under `delta`.
pub open spec fn block_delta(event: JsonTree) -> EventModel {
    match event.member("delta"@) {
        Some(delta) => if delta.text_member("type"@) == Some("text_delta"@) {
            match delta.text_member("text"@) {
                Some(text) => EventModel::TextDelta { index: block_index(event), text },
                None => EventModel::Idle,
            }
        } else if delta.text_member("type"@) == Some("input_json_delta"@) {
            match delta.text_member("partial_json"@) {
                Some(text) => EventModel::InputDelta { index: block_index(event), text },
                None => EventModel::Idle,
            }
        } else {
            EventModel::Idle
        },
        None => EventModel::Idle,
    }
}

/// The event that a payload reports under `event`.
pub open spec fn event_of(payload: JsonTree) -> EventModel {
    match payload.member("event"@) {
        Some(event) => if event.text_member("type"@) == Some("message_start"@) {
            message_start(event)
        } else if event.text_member("type"@) == Some("content_block_start"@) {
            block_start(event)
        } else if event.text_member("type"@) == Some("content_block_delta"@) {
            block_delta(event)
        } else {
            EventModel::Idle
        },
        None => EventModel::Foreign,
    }
}

/// The index of the block that an event is about; the first where it names none.
fn read_block_index(event: &serde_json::Value) -> (index: i64)
    ensures
        index == block_index(value_tree(*event)),
{
    match integer_member(event, "index") {
        Some(index) => index,
        None => 0,
    }
}

/// The string under `key`, or `default` where there is none.
fn read_text_or(object: &serde_json::Value, key: &str, default: &str) -> (text: String)
    ensures
        text@ == text_or(value_tree(*object), key@, default@),
{
    match text_member(object, key) {
        Some(text) => text.to_owned(),
        None => default.to_owned(),
    }
}

/// Reads the start of a message.
fn read_message_start(event: &serde_json::Value) -> (read: StreamEvent)
    ensures
        read@ == message_start(value_tree(*event)),
{
    let role = match member_of(event, "message") {
        Some(message) => match text_member(message, "role") {
            Some(role) => Some(role.to_owned()),
            None => None,
        },
        None => None,
    };
    StreamEvent::MessageStart { role }
}

/// Reads the start of a block.
fn read_block_start(event: &serde_json::Value) -> (read: StreamEvent)
    ensures
        read@ == block_start(value_tree(*event)),
{
    match member_of(event, "content_block") {
        Some(block) => StreamEvent::BlockStart {
            index: read_block_index(event),
            kind: read_text_or(block, "type", "text"),
            text: read_text_or(block, "text", ""),
        },
        None => StreamEvent::Idle,
    }
}

/// Reads a piece of a block.
fn read_block_delta(event: &serde_json::Value) -> (read: StreamEvent)
    ensures
        read@ == block_delta(value_tree(*event)),
{
    let delta = match member_of(event, "delta") {
        Some(delta) => delta,
        None => {
            return StreamEvent::Idle;
        },
    };
    let kind = match text_member(delta, "type") {
        Some(kind) => kind,
        None => {
            return StreamEvent::Idle;
        },
    };
    if same_text(kind, "text_delta") {
        match text_member(delta, "text") {
            Some(text) => StreamEvent::TextDelta {
                index: read_block_index(event),
                text: text.to_owned(),
            },
            None => StreamEvent::Idle,
        }
    } else if same_text(kind, "input_json_delta") {
        match text_member(delta, "partial_json") {
            Some(text) => StreamEvent::InputDelta {
                index: read_block_index(event),
                text: text.to_owned(),
            },
            None => StreamEvent::Idle,
        }
    } else {
        StreamEvent::Idle
    }
}

/// Reads the event that a payload reports.
pub fn read_event(payload: &serde_json::Value) -> (read: StreamEvent)
    ensures
        read@ == event_of(value_tree(*payload)),
{
    let event = match member_of(payload, "event") {
        Some(event) => event,
        None => {
            return StreamEvent::Foreign;
        },
    };
    let kind = match text_member(event, "type") {
        Some(kind) => kind,
        None => {
            return StreamEvent::Idle;
        },
    };
    if same_text(kind, "message_start") {
        read_message_start(event)
    } else if same_text(kind, "content_block_start") {
        read_block_start(event)
    } else if same_text(kind, "content_block_delta") {
        read_block_delta(event)
    } else {
        StreamEvent::Idle
    }
}

} // verus!
