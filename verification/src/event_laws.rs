//! What holds of reading any stream event.
use crate::event::{event_of, EventModel, StreamEvent};
use crate::json::JsonTree;
use vstd::prelude::*;

verus! {

proof fn lemma_types_differ()
    ensures
        "message_start"@ != "content_block_start"@,
        "message_start"@ != "content_block_delta"@,
        "content_block_start"@ != "content_block_delta"@,
        "text_delta"@ != "input_json_delta"@,
        ""@ == Seq::<char>::empty(),
{
    reveal_strlit("message_start");
    reveal_strlit("content_block_start");
    reveal_strlit("content_block_delta");
    reveal_strlit("text_delta");
    reveal_strlit("input_json_delta");
    reveal_strlit("");
    assert("message_start"@.len() == 13);
    assert("content_block_start"@.len() == 19);
    assert("content_block_delta"@.len() == 19);
    assert("content_block_start"@[14] == 's');
    assert("content_block_delta"@[14] == 'd');
    assert("text_delta"@.len() == 10);
    assert("input_json_delta"@.len() == 16);
    assert(""@ =~= Seq::<char>::empty());
}

/// A payload reports no event exactly where it has nothing under `event`.
pub proof fn law_payload_without_event_is_foreign(payload: JsonTree)
    ensures
        event_of(payload) is Foreign <==> payload.member("event"@) is None,
{
}

/// Every event of the type `message_start` starts a message, whatever else it holds, and
/// announces the role of its `message`, if that has one.
pub proof fn law_message_start_is_read(payload: JsonTree, event: JsonTree)
    requires
        payload.member("event"@) == Some(event),
        event.text_member("type"@) == Some("message_start"@),
    ensures
        event_of(payload) is MessageStart,
        event_of(payload)->role == match event.member("message"@) {
            Some(message) => message.text_member("role"@),
            None => None,
        },
{
}

/// Nothing but the type makes an event the start of a message, the start of a block or
/// a piece of one.
pub proof fn law_type_decides(payload: JsonTree, event: JsonTree)
    requires
        payload.member("event"@) == Some(event),
    ensures
        event_of(payload) is MessageStart <==> event.text_member("type"@) == Some(
            "message_start"@,
        ),
        event_of(payload) is BlockStart ==> event.text_member("type"@) == Some(
            "content_block_start"@,
        ),
        event_of(payload) is TextDelta || event_of(payload) is InputDelta
            ==> event.text_member("type"@) == Some("content_block_delta"@),
{
    lemma_types_differ();
}

/// Every event of the type `content_block_start` with a `content_block` starts a block,
/// whatever else it holds: at its `index`, else at 0, of its type, else `text`, with its
/// text, else none.
pub proof fn law_block_start_is_read(payload: JsonTree, event: JsonTree, block: JsonTree)
    requires
        payload.member("event"@) == Some(event),
        event.text_member("type"@) == Some("content_block_start"@),
        event.member("content_block"@) == Some(block),
    ensures
        event_of(payload) is BlockStart,
        event_of(payload)->BlockStart_index == match event.integer_member("index"@) {
            Some(index) => index,
            None => 0i64,
        },
        event_of(payload)->kind == match block.text_member("type"@) {
            Some(kind) => kind,
            None => "text"@,
        },
        event_of(payload)->BlockStart_text == match block.text_member("text"@) {
            Some(text) => text,
            None => Seq::empty(),
        },
{
    lemma_types_differ();
}

/// The start of a block without a `content_block` changes nothing.
pub proof fn law_block_start_without_block_is_idle(payload: JsonTree, event: JsonTree)
    requires
        payload.member("event"@) == Some(event),
        event.text_member("type"@) == Some("content_block_start"@),
        event.member("content_block"@) is None,
    ensures
        event_of(payload) is Idle,
{
    lemma_types_differ();
}

/// Every `text_delta` with a text brings that text for the block at the event's `index`,
/// else at 0, whatever else the event and the delta hold.
pub proof fn law_text_delta_is_read(
    payload: JsonTree,
    event: JsonTree,
    delta: JsonTree,
    text: Seq<char>,
)
    requires
        payload.member("event"@) == Some(event),
        event.text_member("type"@) == Some("content_block_delta"@),
        event.member("delta"@) == Some(delta),
        delta.text_member("type"@) == Some("text_delta"@),
        delta.text_member("text"@) == Some(text),
    ensures
        event_of(payload) is TextDelta,
        event_of(payload)->TextDelta_text == text,
        event_of(payload)->TextDelta_index == match event.integer_member("index"@) {
            Some(index) => index,
            None => 0i64,
        },
{
    lemma_types_differ();
}

/// Every `input_json_delta` with a `partial_json` brings that for the block at the
/// event's `index`, else at 0, whatever else the event and the delta hold.
pub proof fn law_input_delta_is_read(
    payload: JsonTree,
    event: JsonTree,
    delta: JsonTree,
    text: Seq<char>,
)
    requires
        payload.member("event"@) == Some(event),
        event.text_member("type"@) == Some("content_block_delta"@),
        event.member("delta"@) == Some(delta),
        delta.text_member("type"@) == Some("input_json_delta"@),
        delta.text_member("partial_json"@) == Some(text),
    ensures
        event_of(payload) is InputDelta,
        event_of(payload)->InputDelta_text == text,
        event_of(payload)->InputDelta_index == match event.integer_member("index"@) {
            Some(index) => index,
            None => 0i64,
        },
{
    lemma_types_differ();
}

/// A piece of a block that is neither text nor input, or lacks what it should bring,
/// changes nothing.
pub proof fn law_other_delta_is_idle(payload: JsonTree, event: JsonTree)
    requires
        payload.member("event"@) == Some(event),
        event.text_member("type"@) == Some("content_block_delta"@),
        match event.member("delta"@) {
            Some(delta) => {
                &&& delta.text_member("type"@) == Some("text_delta"@) ==> delta.text_member(
                    "text"@,
                ) is None
                &&& delta.text_member("type"@) == Some("input_json_delta"@) ==> delta.text_member(
                    "partial_json"@,
                ) is None
            },
            None => true,
        },
    ensures
        event_of(payload) is Idle,
{
    lemma_types_differ();
}

/// An event of any other type, or of none, changes nothing.
pub proof fn law_other_event_is_idle(payload: JsonTree, event: JsonTree)
    requires
        payload.member("event"@) == Some(event),
        event.text_member("type"@) != Some("message_start"@),
        event.text_member("type"@) != Some("content_block_start"@),
        event.text_member("type"@) != Some("content_block_delta"@),
    ensures
        event_of(payload) is Idle,
{
}

/// What an event holds is all that the event itself holds, field for field.
pub proof fn law_event_is_viewed_whole(event: StreamEvent)
    ensures
        match event {
            StreamEvent::Foreign => event@ is Foreign,
            StreamEvent::MessageStart { role: Some(role) } => event@
                == (EventModel::MessageStart { role: Some(role@) }),
            StreamEvent::MessageStart { role: None } => event@
                == (EventModel::MessageStart { role: None }),
            StreamEvent::BlockStart { index, kind, text } => event@
                == (EventModel::BlockStart { index, kind: kind@, text: text@ }),
            StreamEvent::TextDelta { index, text } => event@
                == (EventModel::TextDelta { index, text: text@ }),
            StreamEvent::InputDelta { index, text } => event@
                == (EventModel::InputDelta { index, text: text@ }),
            StreamEvent::Idle => event@ is Idle,
        },
{
}

} // verus!
