//! What holds of every log, and of its pages.
use crate::aggregate::{completed, law_no_blocks_no_message};
use crate::aggregate_laws::{is_spoken_message, law_completed_messages_stay};
use crate::aggregate_laws::law_every_message_says_something;
use crate::event::event_of;
use crate::json::JsonTree;
use crate::log_lines::{is_kept, is_stream_event, line_event, line_events, log_events};
use crate::logs::{log_messages, log_read, log_text};
use crate::page::{lesser, page_end, page_of, page_start};
use crate::text::{ended_lines, lines_of, open_line, without_return};
use vstd::prelude::*;

verus! {

proof fn lemma_line_events_are_kept(given: Seq<Seq<char>>)
    ensures
        forall|i: int|
            0 <= i < line_events(given).len() ==> is_stream_event(
                #[trigger] line_events(given)[i],
            ) && is_kept(line_events(given)[i]),
    decreases given.len(),
{
    if given.len() > 0 {
        let earlier = line_events(given.drop_last());
        lemma_line_events_are_kept(given.drop_last());
        assert forall|i: int| 0 <= i < line_events(given).len() implies is_stream_event(
            #[trigger] line_events(given)[i],
        ) && is_kept(line_events(given)[i]) by {
            if i < earlier.len() {
                assert(line_events(given)[i] == earlier[i]);
            }
        }
    }
}

/// The events of a log are stream events, and none is noise.
pub proof fn law_log_events_are_no_noise(raw: Seq<char>, at: int)
    requires
        0 <= at < log_events(raw).len(),
    ensures
        is_stream_event(log_events(raw)[at]),
        is_kept(log_events(raw)[at]),
{
    lemma_line_events_are_kept(lines_of(raw));
}

/// No piece of thinking is among the events of a log.
pub proof fn law_no_thinking_gets_through(
    raw: Seq<char>,
    at: int,
    event: JsonTree,
    delta: JsonTree,
)
    requires
        0 <= at < log_events(raw).len(),
        log_events(raw)[at].member("event"@) == Some(event),
        event.text_member("type"@) == Some("content_block_delta"@),
        event.member("delta"@) == Some(delta),
    ensures
        delta.text_member("type"@) != Some("thinking_delta"@),
{
    law_log_events_are_no_noise(raw, at);
}

/// A line without a stream event, such as noise or a broken line, can be left out
/// wherever it stands.
pub proof fn law_line_without_event_changes_nothing(
    before: Seq<Seq<char>>,
    line: Seq<char>,
    behind: Seq<Seq<char>>,
)
    requires
        line_event(line) is None,
    ensures
        line_events(before + seq![line] + behind) == line_events(before + behind),
    decreases behind.len(),
{
    let given = before + seq![line] + behind;
    if behind.len() == 0 {
        assert(given.drop_last() =~= before);
        assert(before + behind =~= before);
    } else {
        assert(given.drop_last() =~= before + seq![line] + behind.drop_last());
        assert((before + behind).drop_last() =~= before + behind.drop_last());
        law_line_without_event_changes_nothing(before, line, behind.drop_last());
    }
}

/// Every message of a log says something: it has a role and content, only text is
/// returned, and no text is empty.
pub proof fn law_log_messages_say_something(raw: Option<Seq<char>>, at: int)
    requires
        0 <= at < log_messages(raw).len(),
    ensures
        is_spoken_message(log_messages(raw)[at]),
{
    let events = log_events(log_text(raw));
    assert forall|i: int| 0 <= i < events.len() implies !(event_of(
        #[trigger] events[i],
    ) is Foreign) by {
        law_log_events_are_no_noise(log_text(raw), i);
    }
    law_every_message_says_something(events, at);
}

/// A log that is not there has no messages.
pub proof fn law_no_log_no_messages()
    ensures
        log_messages(None).len() == 0,
{
    let none = Seq::<char>::empty();
    assert(lines_of(none) =~= Seq::<Seq<char>>::empty());
    assert(log_events(none) =~= Seq::<JsonTree>::empty());
    law_no_blocks_no_message(None);
    assert(completed(Seq::<JsonTree>::empty()) =~= Seq::<JsonTree>::empty());
}

/// A failed read, a missing log and an empty one are answered alike: there are no
/// messages, and so no latest one, and every page is empty.
pub proof fn law_failed_read_is_as_no_log<E>(
    error: E,
    empty: String,
    page: int,
    limit: int,
)
    requires
        empty@.len() == 0,
        page >= 1,
        limit >= 1,
    ensures
        log_messages(log_read(Err::<Option<String>, E>(error))) == Seq::<JsonTree>::empty(),
        log_messages(log_read(Ok::<Option<String>, E>(None))) == Seq::<JsonTree>::empty(),
        log_messages(log_read(Ok::<Option<String>, E>(Some(empty)))) == Seq::<JsonTree>::empty(),
        page_of(Seq::<JsonTree>::empty(), page, limit).len() == 0,
{
    law_no_log_no_messages();
    assert(empty@ =~= Seq::<char>::empty());
    law_page_size(Seq::<JsonTree>::empty(), page, limit);
}

pub(crate) proof fn lemma_line_behind(text: Seq<char>, line: Seq<char>)
    requires
        open_line(text).len() == 0,
        !line.contains('\n'),
    ensures
        ended_lines(text + line) == ended_lines(text),
        open_line(text + line) == line,
    decreases line.len(),
{
    if line.len() == 0 {
        assert(text + line =~= text);
        assert(open_line(text) =~= line);
    } else {
        assert((text + line).drop_last() =~= text + line.drop_last());
        assert(line.contains(line.last()));
        assert forall|i: int| 0 <= i < line.drop_last().len() implies line.drop_last()[i]
            != '\n' by {
            assert(line.contains(line[i]));
        }
        lemma_line_behind(text, line.drop_last());
        assert(line.drop_last().push(line.last()) =~= line);
    }
}

/// A line that is written behind a log is one line more, and no other line changes.
pub proof fn law_line_is_added(raw: Seq<char>, line: Seq<char>)
    requires
        raw.len() == 0 || raw.last() == '\n',
        !line.contains('\n'),
        line.len() > 0 ==> line.last() != '\r',
    ensures
        lines_of(raw + line + seq!['\n']) == lines_of(raw).push(line),
{
    lemma_line_behind(raw, line);
    let text = raw + line + seq!['\n'];
    assert(text.drop_last() =~= raw + line);
    assert(text.last() == '\n');
    assert(without_return(line) == line);
}

/// A line that is written behind a log adds its stream event, if it has one, and
/// leaves the events before it as they are.
pub proof fn law_line_adds_its_event(raw: Seq<char>, line: Seq<char>)
    requires
        raw.len() == 0 || raw.last() == '\n',
        !line.contains('\n'),
        line.len() > 0 ==> line.last() != '\r',
    ensures
        log_events(raw + line + seq!['\n']) == match line_event(line) {
            Some(event) => log_events(raw).push(event),
            None => log_events(raw),
        },
{
    law_line_is_added(raw, line);
    assert(lines_of(raw).push(line).drop_last() =~= lines_of(raw));
}

/// While a log grows by a line, its complete messages stay as they are.
pub proof fn law_growing_log_keeps_messages(raw: Seq<char>, line: Seq<char>)
    requires
        raw.len() == 0 || raw.last() == '\n',
        !line.contains('\n'),
        line.len() > 0 ==> line.last() != '\r',
    ensures
        completed(log_events(raw)).is_prefix_of(
            log_messages(Some(raw + line + seq!['\n'])),
        ),
{
    law_line_adds_its_event(raw, line);
    let more = match line_event(line) {
        Some(event) => seq![event],
        None => Seq::<JsonTree>::empty(),
    };
    assert(log_events(raw + line + seq!['\n']) =~= log_events(raw) + more);
    law_completed_messages_stay(log_events(raw), more);
}

/// The first pages of some items, one after the other.
pub open spec fn first_pages<T>(items: Seq<T>, count: nat, limit: int) -> Seq<T>
    decreases count,
{
    if count == 0 {
        Seq::empty()
    } else {
        first_pages(items, (count - 1) as nat, limit) + page_of(items, count as int, limit)
    }
}

proof fn lemma_page_bounds(page: int, limit: int, total: int)
    requires
        page >= 1,
        limit >= 1,
        total >= 0,
    ensures
        0 <= page_start(page, limit, total) <= page_end(page, limit, total) <= total,
        page_end(page, limit, total) == lesser(page * limit, total),
        page_start(page + 1, limit, total) == page_end(page, limit, total),
{
    assert((page - 1) * limit >= 0) by (nonlinear_arith)
        requires
            page >= 1,
            limit >= 1,
    ;
    assert((page - 1) * limit + limit == page * limit) by (nonlinear_arith);
}

/// Pages neither overlap nor leave anything out: the first pages, one after the other,
/// are the first items.
pub proof fn law_pages_join<T>(items: Seq<T>, count: nat, limit: int)
    requires
        limit >= 1,
    ensures
        first_pages(items, count, limit) == items.take(
            lesser(count * limit, items.len() as int),
        ),
    decreases count,
{
    if count == 0 {
        assert(count * limit == 0) by (nonlinear_arith)
            requires
                count == 0,
        ;
        assert(items.take(0) =~= Seq::<T>::empty());
    } else {
        law_pages_join(items, (count - 1) as nat, limit);
        lemma_page_bounds(count as int, limit, items.len() as int);
        assert(first_pages(items, count, limit) =~= items.take(
            lesser(count * limit, items.len() as int),
        ));
    }
}

/// A page holds as many items as it may, or what is left of them: none behind the
/// last page.
pub proof fn law_page_size<T>(items: Seq<T>, page: int, limit: int)
    requires
        page >= 1,
        limit >= 1,
    ensures
        page_of(items, page, limit).len() == lesser(
            limit,
            items.len() - page_start(page, limit, items.len() as int),
        ),
        (page - 1) * limit >= items.len() ==> page_of(items, page, limit).len() == 0,
{
    lemma_page_bounds(page, limit, items.len() as int);
}

/// The latest turn is the last message of the last page.
pub proof fn law_latest_is_last_of_last_page<T>(items: Seq<T>, page: int, limit: int)
    requires
        limit >= 1,
        (page - 1) * limit < items.len() <= page * limit,
        page >= 1,
    ensures
        page_of(items, page, limit).len() > 0,
        page_of(items, page, limit).last() == items.last(),
{
    lemma_page_bounds(page, limit, items.len() as int);
}

} // verus!
