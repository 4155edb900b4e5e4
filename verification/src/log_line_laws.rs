//! What is read of any line of a log: nothing but noise and broken lines is dropped, and
//! the lines of a log are read one by one.
use crate::aggregate::aggregated;
use crate::json::{parsed_tree, JsonTree};
use crate::log_lines::{is_kept, is_kept_event, is_stream_event, line_event, line_events};
use crate::log_lines::{line_payload, log_events};
use crate::logs::{log_messages, log_read, log_text};
use crate::text::lines_of;
use crate::text_laws::{law_empty_text_has_no_lines, law_line_with_return_is_added};
use crate::text_laws::law_open_line_is_added;
use vstd::prelude::*;

verus! {

/// Nothing but noise is dropped: a stream event that says its type is kept, unless it is
/// a piece of a block that does not say what it brings or brings thinking.
pub proof fn law_only_noise_is_dropped(payload: JsonTree, event: JsonTree)
    requires
        payload.text_member("type"@) == Some("stream_event"@),
        payload.member("event"@) == Some(event),
        event.text_member("type"@) is Some,
        event.text_member("type"@) == Some("content_block_delta"@) ==> match event.member(
            "delta"@,
        ) {
            Some(delta) => delta.text_member("type"@) is Some && delta.text_member("type"@) != Some(
                "thinking_delta"@,
            ),
            None => false,
        },
    ensures
        is_kept(payload),
        is_stream_event(payload),
{
    reveal_strlit("system");
    reveal_strlit("stream_event");
    assert("system"@.len() != "stream_event"@.len());
}

/// A payload of another type is kept, unless it is of the type `system` and does not say
/// its subtype or counts thinking tokens. It is no stream event.
pub proof fn law_other_payload_is_kept(payload: JsonTree)
    requires
        payload.text_member("type"@) is Some,
        payload.text_member("type"@) != Some("stream_event"@),
        payload.text_member("type"@) == Some("system"@) ==> payload.text_member("subtype"@) is Some
            && payload.text_member("subtype"@) != Some("thinking_tokens"@),
    ensures
        is_kept(payload),
        !is_stream_event(payload),
{
}

/// Noise is dropped: what does not say its type, a count of thinking tokens, a piece of
/// thinking, and what lacks the part that would tell.
pub proof fn law_noise_is_dropped(payload: JsonTree)
    requires
        ({
            ||| payload.text_member("type"@) is None
            ||| payload.text_member("type"@) == Some("system"@) && (payload.text_member(
                "subtype"@,
            ) is None || payload.text_member("subtype"@) == Some("thinking_tokens"@))
            ||| payload.text_member("type"@) == Some("stream_event"@) && match payload.member(
                "event"@,
            ) {
                Some(event) => event.text_member("type"@) is None || (event.text_member("type"@)
                    == Some("content_block_delta"@) && match event.member("delta"@) {
                    Some(delta) => delta.text_member("type"@) is None || delta.text_member(
                        "type"@,
                    ) == Some("thinking_delta"@),
                    None => true,
                }),
                None => true,
            }
        }),
    ensures
        !is_kept(payload),
{
}

/// An event is kept exactly where it says its type and, if it is a piece of a block, says
/// what it brings and brings no thinking. Nothing else in it matters.
pub proof fn law_event_is_kept_unless_thinking(event: JsonTree)
    ensures
        is_kept_event(event) <==> {
            &&& event.text_member("type"@) is Some
            &&& event.text_member("type"@) == Some("content_block_delta"@) ==> {
                &&& event.member("delta"@) is Some
                &&& event.member("delta"@)->0.text_member("type"@) is Some
                &&& event.member("delta"@)->0.text_member("type"@) != Some("thinking_delta"@)
            }
        },
{
}

/// The type alone tells a stream event.
pub proof fn law_type_tells_stream_event(payload: JsonTree)
    ensures
        is_stream_event(payload) <==> payload.member("type"@) == Some(
            JsonTree::Text("stream_event"@),
        ),
{
}

/// A line gives the payload that its `Stdout` string spells, and where that is a stream
/// event that is no noise, it gives that event.
pub proof fn law_line_gives_its_event(
    line: Seq<char>,
    outer: JsonTree,
    inner: Seq<char>,
    payload: JsonTree,
    event: JsonTree,
)
    requires
        parsed_tree(line) == Some(outer),
        outer.text_member("Stdout"@) == Some(inner),
        parsed_tree(inner) == Some(payload),
        payload.text_member("type"@) == Some("stream_event"@),
        payload.member("event"@) == Some(event),
        event.text_member("type"@) is Some,
        event.text_member("type"@) == Some("content_block_delta"@) ==> match event.member(
            "delta"@,
        ) {
            Some(delta) => delta.text_member("type"@) is Some && delta.text_member("type"@) != Some(
                "thinking_delta"@,
            ),
            None => false,
        },
    ensures
        line_payload(line) == Some(payload),
        line_event(line) == Some(payload),
{
    law_only_noise_is_dropped(payload, event);
}

/// A line whose payload is of another type gives the payload, unless that is noise, but
/// no event.
pub proof fn law_line_gives_its_payload(
    line: Seq<char>,
    outer: JsonTree,
    inner: Seq<char>,
    payload: JsonTree,
)
    requires
        parsed_tree(line) == Some(outer),
        outer.text_member("Stdout"@) == Some(inner),
        parsed_tree(inner) == Some(payload),
        payload.text_member("type"@) is Some,
        payload.text_member("type"@) != Some("stream_event"@),
        payload.text_member("type"@) == Some("system"@) ==> payload.text_member("subtype"@) is Some
            && payload.text_member("subtype"@) != Some("thinking_tokens"@),
    ensures
        line_payload(line) == Some(payload),
        line_event(line) is None,
{
    law_other_payload_is_kept(payload);
}

/// What a line gives is what its `Stdout` string spells, and no noise; an event is a
/// stream event too.
pub proof fn law_line_gives_nothing_else(line: Seq<char>)
    ensures
        line_payload(line) is Some ==> {
            &&& parsed_tree(line) is Some
            &&& parsed_tree(line)->0.text_member("Stdout"@) is Some
            &&& parsed_tree(parsed_tree(line)->0.text_member("Stdout"@)->0) == line_payload(line)
            &&& is_kept(line_payload(line)->0)
        },
        line_event(line) is Some ==> {
            &&& line_event(line) == line_payload(line)
            &&& line_event(line)->0.text_member("type"@) == Some("stream_event"@)
        },
{
}

/// A line gives nothing where it is not JSON, has no string under `Stdout`, where that
/// string is not JSON, or where it spells noise.
pub proof fn law_broken_line_gives_nothing(line: Seq<char>)
    requires
        match parsed_tree(line) {
            Some(outer) => match outer.text_member("Stdout"@) {
                Some(inner) => match parsed_tree(inner) {
                    Some(payload) => !is_kept(payload),
                    None => true,
                },
                None => true,
            },
            None => true,
        },
    ensures
        line_payload(line) is None,
        line_event(line) is None,
{
}

/// Lines are read one by one: the events of some lines and of more lines behind them
/// follow each other, and a line by itself gives its own event or none.
pub proof fn law_lines_are_read_one_by_one(
    before: Seq<Seq<char>>,
    behind: Seq<Seq<char>>,
    line: Seq<char>,
)
    ensures
        line_events(before + behind) == line_events(before) + line_events(behind),
        line_events(seq![line]) == match line_event(line) {
            Some(event) => seq![event],
            None => Seq::<JsonTree>::empty(),
        },
        line_events(Seq::<Seq<char>>::empty()) == Seq::<JsonTree>::empty(),
    decreases behind.len(),
{
    assert(seq![line].drop_last() =~= Seq::<Seq<char>>::empty());
    assert(line_events(Seq::<Seq<char>>::empty()) =~= Seq::<JsonTree>::empty());
    assert(line_events(seq![line]) =~= match line_event(line) {
        Some(event) => seq![event],
        None => Seq::<JsonTree>::empty(),
    });
    if behind.len() == 0 {
        assert(before + behind =~= before);
        assert(line_events(before) + line_events(behind) =~= line_events(before));
    } else {
        assert((before + behind).drop_last() =~= before + behind.drop_last());
        law_lines_are_read_one_by_one(before, behind.drop_last(), line);
        assert(line_events(before + behind) =~= line_events(before) + line_events(behind));
    }
}

/// An empty log has no events.
pub proof fn law_empty_log_has_no_events()
    ensures
        log_events(Seq::<char>::empty()) == Seq::<JsonTree>::empty(),
{
    law_empty_text_has_no_lines();
    assert(log_events(Seq::<char>::empty()) =~= Seq::<JsonTree>::empty());
}

/// The last line of a log adds its stream event, if it has one, also where it ends at a
/// carriage return and a line feed, or where nothing ends it.
pub proof fn law_last_line_adds_its_event(raw: Seq<char>, line: Seq<char>)
    requires
        raw.len() == 0 || raw.last() == '\n',
        !line.contains('\n'),
    ensures
        log_events(raw + line + seq!['\r', '\n']) == match line_event(line) {
            Some(event) => log_events(raw).push(event),
            None => log_events(raw),
        },
        line.len() > 0 ==> log_events(raw + line) == match line_event(line) {
            Some(event) => log_events(raw).push(event),
            None => log_events(raw),
        },
{
    law_line_with_return_is_added(raw, line);
    if line.len() > 0 {
        law_open_line_is_added(raw, line);
    }
    assert(lines_of(raw).push(line).drop_last() =~= lines_of(raw));
}

/// A read that found a text has the messages that the events of that text make; one that
/// found none, or failed, has none to make messages of.
pub proof fn law_messages_are_made_of_events<E>(found: String, error: E)
    ensures
        log_read(Ok::<Option<String>, E>(Some(found))) == Some(found@),
        log_read(Ok::<Option<String>, E>(None)) is None,
        log_read(Err::<Option<String>, E>(error)) is None,
        log_text(Some(found@)) == found@,
        log_text(None).len() == 0,
        log_messages(log_read(Ok::<Option<String>, E>(Some(found)))) == aggregated(
            log_events(found@),
        ),
        log_messages(log_read(Ok::<Option<String>, E>(None))) == aggregated(
            Seq::<JsonTree>::empty(),
        ),
        log_messages(log_read(Err::<Option<String>, E>(error))) == aggregated(
            Seq::<JsonTree>::empty(),
        ),
{
    law_empty_log_has_no_events();
}

} // verus!
