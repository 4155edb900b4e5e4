//! What holds of the messages of every stream of events.
use crate::aggregate::{aggregated, completed, draft_after, emitted, written, DraftModel};
use crate::aggregate::law_no_blocks_no_message;
use crate::event::{event_of, EventModel};
use crate::json::JsonTree;
use crate::message::{law_listing_is_order, message_json, message_of, role_or_default};
use crate::message::{said_texts, BlockModel, MessageModel};
use crate::message_laws::law_no_text_is_empty;
use vstd::prelude::*;

verus! {

/// The draft after further payloads.
pub open spec fn draft_from(draft: DraftModel, payloads: Seq<JsonTree>) -> DraftModel
    decreases payloads.len(),
{
    if payloads.len() == 0 {
        draft
    } else {
        draft_from(draft, payloads.drop_last()).after(event_of(payloads.last()))
    }
}

/// The messages that further payloads complete.
pub open spec fn completed_from(draft: DraftModel, payloads: Seq<JsonTree>) -> Seq<JsonTree>
    decreases payloads.len(),
{
    if payloads.len() == 0 {
        Seq::empty()
    } else {
        completed_from(draft, payloads.drop_last()) + emitted(
            draft_from(draft, payloads.drop_last()),
            payloads.last(),
        )
    }
}

/// The pieces that come for the block at an index, joined.
pub open spec fn pieces_for(payloads: Seq<JsonTree>, index: i64) -> Seq<char>
    decreases payloads.len(),
{
    if payloads.len() == 0 {
        Seq::empty()
    } else {
        pieces_for(payloads.drop_last(), index) + match event_of(payloads.last()) {
            EventModel::TextDelta { index: i, text } if i == index => text,
            EventModel::InputDelta { index: i, text } if i == index => text,
            _ => Seq::empty(),
        }
    }
}

/// Whether an event leaves it to pieces to change the block at an index.
pub open spec fn leaves_block(event: EventModel, index: i64) -> bool {
    match event {
        EventModel::MessageStart { .. } => false,
        EventModel::BlockStart { index: i, .. } => i != index,
        _ => true,
    }
}

/// The index of the block that an event brings a piece for.
pub open spec fn piece_index(event: EventModel) -> Option<i64> {
    match event {
        EventModel::TextDelta { index, .. } => Some(index),
        EventModel::InputDelta { index, .. } => Some(index),
        _ => None,
    }
}

/// Payloads that come later see only the draft that the earlier ones left.
pub(crate) proof fn lemma_joined(a: Seq<JsonTree>, b: Seq<JsonTree>)
    ensures
        draft_after(a + b) == draft_from(draft_after(a), b),
        completed(a + b) == completed(a) + completed_from(draft_after(a), b),
    decreases b.len(),
{
    if b.len() == 0 {
        assert(a + b =~= a);
        assert(completed(a) + Seq::<JsonTree>::empty() =~= completed(a));
    } else {
        assert((a + b).drop_last() =~= a + b.drop_last());
        lemma_joined(a, b.drop_last());
        assert(completed(a + b) =~= completed(a) + completed_from(draft_after(a), b));
    }
}

/// The first of some payloads, and what the others make of the draft it leaves.
pub(crate) proof fn lemma_first(draft: DraftModel, first: JsonTree, rest: Seq<JsonTree>)
    ensures
        draft_from(draft, seq![first] + rest) == draft_from(draft.after(event_of(first)), rest),
        completed_from(draft, seq![first] + rest) == emitted(draft, first) + completed_from(
            draft.after(event_of(first)),
            rest,
        ),
    decreases rest.len(),
{
    let all = seq![first] + rest;
    if rest.len() == 0 {
        assert(all.drop_last() =~= Seq::<JsonTree>::empty());
        assert(all.last() == first);
        assert(draft_from(draft, all.drop_last()) == draft);
        assert(completed_from(draft, all.drop_last()) =~= Seq::<JsonTree>::empty());
        assert(completed_from(draft, all) =~= emitted(draft, first) + Seq::<JsonTree>::empty());
    } else {
        assert(all.drop_last() =~= seq![first] + rest.drop_last());
        assert(all.last() == rest.last());
        lemma_first(draft, first, rest.drop_last());
        assert(completed_from(draft, all) =~= emitted(draft, first) + completed_from(
            draft.after(event_of(first)),
            rest,
        ));
    }
}

/// The stop of a block or of a message changes nothing: a message is handed out at the
/// start of the next one, or at the end.
pub proof fn law_stop_is_idle(payload: JsonTree, event: JsonTree)
    requires
        payload.member("event"@) == Some(event),
        event.text_member("type"@) == Some("content_block_stop"@) || event.text_member("type"@)
            == Some("message_stop"@),
    ensures
        event_of(payload) is Idle,
{
    reveal_strlit("content_block_stop");
    reveal_strlit("message_stop");
    reveal_strlit("message_start");
    reveal_strlit("content_block_start");
    reveal_strlit("content_block_delta");
    assert("content_block_stop"@.len() == 18);
    assert("message_stop"@.len() == 12);
    assert("message_start"@.len() == 13);
    assert("content_block_start"@.len() == 19);
    assert("content_block_delta"@.len() == 19);
}

/// An event that changes nothing, such as the stop of a block or of a message, can
/// be left out wherever it stands.
pub proof fn law_idle_event_changes_nothing(
    before: Seq<JsonTree>,
    idle: JsonTree,
    behind: Seq<JsonTree>,
)
    requires
        event_of(idle) is Idle,
    ensures
        aggregated(before + seq![idle] + behind) == aggregated(before + behind),
{
    let draft = draft_after(before);
    assert(before + seq![idle] + behind =~= before + (seq![idle] + behind));
    lemma_joined(before, seq![idle] + behind);
    lemma_joined(before, behind);
    lemma_first(draft, idle, behind);
    assert(emitted(draft, idle) + completed_from(draft, behind) =~= completed_from(draft, behind));
}

/// Whether two drafts make the same message: the blocks are the same, and so is the
/// role, if need be the default.
pub open spec fn alike(a: DraftModel, b: DraftModel) -> bool {
    a.blocks == b.blocks && role_or_default(a.role) == role_or_default(b.role)
}

proof fn lemma_alike(a: DraftModel, b: DraftModel, payloads: Seq<JsonTree>)
    requires
        alike(a, b),
    ensures
        alike(draft_from(a, payloads), draft_from(b, payloads)),
        completed_from(a, payloads) == completed_from(b, payloads),
    decreases payloads.len(),
{
    if payloads.len() > 0 {
        lemma_alike(a, b, payloads.drop_last());
    }
}

/// The start of a message parts the stream: what comes before it and what comes from it
/// on make their messages independently. The one thing that reaches across is a role,
/// where the start announces none and the role before is not the default.
pub proof fn law_message_start_parts_stream(
    before: Seq<JsonTree>,
    start: JsonTree,
    behind: Seq<JsonTree>,
)
    requires
        event_of(start) is MessageStart,
        event_of(start)->role is Some || role_or_default(announced_role(before)) == role_or_default(
            None,
        ),
    ensures
        aggregated(before + seq![start] + behind) == aggregated(before) + aggregated(
            seq![start] + behind,
        ),
{
    let draft = draft_after(before);
    let none = Seq::<JsonTree>::empty();
    let tail = seq![start] + behind;
    assert(before + seq![start] + behind =~= before + tail);
    lemma_joined(before, tail);
    lemma_first(draft, start, behind);
    assert(none + tail =~= tail);
    lemma_joined(none, tail);
    lemma_first(DraftModel::start(), start, behind);
    law_no_blocks_no_message(None);
    law_role_is_the_last_announced(before);
    let opened = draft.after(event_of(start));
    let fresh = DraftModel::start().after(event_of(start));
    lemma_alike(opened, fresh, behind);
    assert(aggregated(tail) =~= completed_from(opened, behind) + written(
        draft_from(opened, behind).finished(),
    ));
    assert(aggregated(before + tail) =~= aggregated(before) + aggregated(tail));
}

/// The start of a message completes what came before it: all of its messages stay,
/// whatever comes later.
pub proof fn law_message_start_completes_message(
    before: Seq<JsonTree>,
    start: JsonTree,
    behind: Seq<JsonTree>,
)
    requires
        event_of(start) is MessageStart,
    ensures
        aggregated(before).is_prefix_of(aggregated(before + seq![start] + behind)),
{
    assert((before + seq![start]).drop_last() =~= before);
    assert(completed(before + seq![start]) == aggregated(before));
    law_completed_messages_stay(before + seq![start], behind);
}

/// A message that is complete stays as it is, whatever comes later.
pub proof fn law_completed_messages_stay(before: Seq<JsonTree>, behind: Seq<JsonTree>)
    ensures
        completed(before).is_prefix_of(aggregated(before + behind)),
{
    lemma_joined(before, behind);
    assert(aggregated(before + behind).subrange(0, completed(before).len() as int) =~= completed(
        before,
    ));
}

proof fn lemma_block_collects_its_pieces(
    draft: DraftModel,
    payloads: Seq<JsonTree>,
    index: i64,
)
    requires
        draft.blocks.contains_key(index),
        forall|i: int|
            0 <= i < payloads.len() ==> leaves_block(event_of(#[trigger] payloads[i]), index),
    ensures
        draft_from(draft, payloads).blocks.contains_key(index),
        draft_from(draft, payloads).blocks[index] == (BlockModel {
            kind: draft.blocks[index].kind,
            text: draft.blocks[index].text + pieces_for(payloads, index),
        }),
    decreases payloads.len(),
{
    let held = draft.blocks[index].text;
    if payloads.len() == 0 {
        assert(held + Seq::<char>::empty() =~= held);
    } else {
        assert forall|i: int| 0 <= i < payloads.drop_last().len() implies leaves_block(
            event_of(#[trigger] payloads.drop_last()[i]),
            index,
        ) by {
            assert(payloads.drop_last()[i] == payloads[i]);
        }
        lemma_block_collects_its_pieces(draft, payloads.drop_last(), index);
        assert(payloads.last() == payloads[payloads.len() - 1]);
        let earlier = pieces_for(payloads.drop_last(), index);
        assert(held + earlier + Seq::<char>::empty() =~= held + earlier);
        match event_of(payloads.last()) {
            EventModel::TextDelta { index: i, text } => {
                assert(held + (earlier + text) =~= held + earlier + text);
            },
            EventModel::InputDelta { index: i, text } => {
                assert(held + (earlier + text) =~= held + earlier + text);
            },
            _ => {},
        }
        assert(held + (earlier + Seq::<char>::empty()) =~= held + earlier);
    }
}

/// The block at an index holds the text that it held and the pieces that came for it
/// since, in their order, until a message or a block at that index starts. What
/// comes in between for other blocks does not matter.
pub proof fn law_block_collects_its_pieces(
    before: Seq<JsonTree>,
    behind: Seq<JsonTree>,
    index: i64,
)
    requires
        draft_after(before).blocks.contains_key(index),
        forall|i: int|
            0 <= i < behind.len() ==> leaves_block(event_of(#[trigger] behind[i]), index),
    ensures
        draft_after(before + behind).blocks.contains_key(index),
        draft_after(before + behind).blocks[index] == (BlockModel {
            kind: draft_after(before).blocks[index].kind,
            text: draft_after(before).blocks[index].text + pieces_for(behind, index),
        }),
{
    lemma_joined(before, behind);
    lemma_block_collects_its_pieces(draft_after(before), behind, index);
}

proof fn lemma_only_block(draft: DraftModel, payloads: Seq<JsonTree>, index: i64)
    requires
        draft.blocks.dom() == set![index],
        forall|i: int|
            0 <= i < payloads.len() ==> event_of(#[trigger] payloads[i]) is Idle || piece_index(
                event_of(payloads[i]),
            ) == Some(index),
    ensures
        draft_from(draft, payloads).blocks.dom() == set![index],
        draft_from(draft, payloads).role == draft.role,
        completed_from(draft, payloads).len() == 0,
    decreases payloads.len(),
{
    if payloads.len() > 0 {
        let earlier = payloads.drop_last();
        assert forall|i: int| 0 <= i < earlier.len() implies event_of(
            #[trigger] earlier[i],
        ) is Idle || piece_index(event_of(earlier[i])) == Some(index) by {
            assert(earlier[i] == payloads[i]);
        }
        lemma_only_block(draft, earlier, index);
        assert(payloads.last() == payloads[payloads.len() - 1]);
        assert(draft_from(draft, payloads).blocks.dom() =~= set![index]);
    }
}

/// A message with one text block comes out as one message, whose only text is the
/// first text of the block and its pieces, joined. It is left out where that is
/// empty.
pub proof fn law_pieces_make_one_message(start: JsonTree, block: JsonTree, pieces: Seq<JsonTree>)
    requires
        event_of(start) is MessageStart,
        event_of(block) is BlockStart,
        event_of(block)->kind == "text"@,
        forall|i: int|
            0 <= i < pieces.len() ==> event_of(#[trigger] pieces[i]) is Idle || piece_index(
                event_of(pieces[i]),
            ) == Some(event_of(block)->BlockStart_index),
    ensures
        ({
            let text = event_of(block)->BlockStart_text + pieces_for(
                pieces,
                event_of(block)->BlockStart_index,
            );
            aggregated(seq![start, block] + pieces) == if text.len() > 0 {
                seq![
                    message_json(
                        MessageModel {
                            role: role_or_default(event_of(start)->role),
                            texts: seq![text],
                        },
                    ),
                ]
            } else {
                Seq::<JsonTree>::empty()
            }
        }),
{
    let index = event_of(block)->BlockStart_index;
    let first = seq![start, block];
    let text = event_of(block)->BlockStart_text + pieces_for(pieces, index);
    let opened = draft_after(first);
    assert(first.drop_last() =~= seq![start]);
    assert(seq![start].drop_last() =~= Seq::<JsonTree>::empty());
    assert(draft_after(Seq::<JsonTree>::empty()) == DraftModel::start());
    assert(draft_after(seq![start]) == DraftModel::start().after(event_of(start)));
    assert(opened == draft_after(seq![start]).after(event_of(block)));
    assert(opened.blocks.dom() =~= set![index]);
    law_no_blocks_no_message(None);
    assert(completed(Seq::<JsonTree>::empty()) =~= Seq::<JsonTree>::empty());
    assert(completed(seq![start]) =~= Seq::<JsonTree>::empty());
    assert(completed(first) =~= Seq::<JsonTree>::empty());
    lemma_joined(first, pieces);
    lemma_only_block(opened, pieces, index);
    lemma_block_collects_its_pieces(opened, pieces, index);
    let draft = draft_after(first + pieces);
    assert(seq![index].to_set() =~= set![index]) by {
        assert(seq![index][0] == index);
    }
    law_listing_is_order(seq![index], set![index]);
    assert(seq![index].drop_last() =~= Seq::<i64>::empty());
    assert(said_texts(draft.blocks, Seq::<i64>::empty()) =~= Seq::<Seq<char>>::empty());
    assert(message_of(draft.blocks, draft.role).texts =~= if text.len() > 0 {
        seq![text]
    } else {
        Seq::<Seq<char>>::empty()
    });
    assert(completed(first + pieces) =~= Seq::<JsonTree>::empty());
    assert(aggregated(first + pieces) =~= written(draft.finished()));
}

/// Whether two events bring pieces of one kind for one block, and a third brings both
/// pieces, joined.
pub open spec fn joins(first: EventModel, second: EventModel, joined: EventModel) -> bool {
    match (first, second, joined) {
        (
            EventModel::TextDelta { index: i, text: s },
            EventModel::TextDelta { index: j, text: t },
            EventModel::TextDelta { index: k, text: u },
        ) => i == k && j == k && u == s + t,
        (
            EventModel::InputDelta { index: i, text: s },
            EventModel::InputDelta { index: j, text: t },
            EventModel::InputDelta { index: k, text: u },
        ) => i == k && j == k && u == s + t,
        _ => false,
    }
}

/// How the content of a block is cut into pieces does not matter: two pieces in a row
/// make the same messages as both of them in one.
pub proof fn law_cut_into_pieces_does_not_matter(
    before: Seq<JsonTree>,
    first: JsonTree,
    second: JsonTree,
    joined: JsonTree,
    behind: Seq<JsonTree>,
)
    requires
        joins(event_of(first), event_of(second), event_of(joined)),
    ensures
        aggregated(before + seq![first, second] + behind) == aggregated(
            before + seq![joined] + behind,
        ),
{
    let draft = draft_after(before);
    let half = draft.after(event_of(first));
    let whole = draft.after(event_of(joined));
    let index = piece_index(event_of(joined))->0;
    assert(half.after(event_of(second)).blocks[index].text =~= whole.blocks[index].text);
    assert(half.after(event_of(second)).blocks =~= whole.blocks);
    assert(before + seq![first, second] + behind =~= before + (seq![first] + (seq![second]
        + behind)));
    assert(before + seq![joined] + behind =~= before + (seq![joined] + behind));
    lemma_joined(before, seq![first] + (seq![second] + behind));
    lemma_joined(before, seq![joined] + behind);
    lemma_first(draft, first, seq![second] + behind);
    lemma_first(half, second, behind);
    lemma_first(draft, joined, behind);
    assert(completed(before + (seq![first] + (seq![second] + behind))) =~= completed(
        before + (seq![joined] + behind),
    ));
}

/// Pieces for different blocks can come in either order.
pub proof fn law_pieces_for_different_blocks_commute(
    draft: DraftModel,
    a: EventModel,
    b: EventModel,
)
    requires
        piece_index(a) is Some,
        piece_index(b) is Some,
        piece_index(a) != piece_index(b),
    ensures
        draft.after(a).after(b) == draft.after(b).after(a),
{
    assert(draft.after(a).after(b).blocks =~= draft.after(b).after(a).blocks);
}

/// The role that the given payloads announce last.
pub open spec fn announced_role(payloads: Seq<JsonTree>) -> Option<Seq<char>>
    decreases payloads.len(),
{
    if payloads.len() == 0 {
        None
    } else {
        match event_of(payloads.last()) {
            EventModel::MessageStart { role: Some(role) } => Some(role),
            _ => announced_role(payloads.drop_last()),
        }
    }
}

/// A role stays until another is announced: the message that is being received has
/// the role that was announced last.
pub proof fn law_role_is_the_last_announced(payloads: Seq<JsonTree>)
    ensures
        draft_after(payloads).role == announced_role(payloads),
    decreases payloads.len(),
{
    if payloads.len() > 0 {
        law_role_is_the_last_announced(payloads.drop_last());
    }
}

/// Whether a value is a message that says something, and says nothing empty.
pub open spec fn is_spoken_message(value: JsonTree) -> bool {
    exists|message: MessageModel|
        {
            &&& #[trigger] message_json(message) == value
            &&& message.texts.len() > 0
            &&& forall|i: int|
                0 <= i < message.texts.len() ==> #[trigger] message.texts[i].len() > 0
        }
}

proof fn lemma_finished_is_spoken(draft: DraftModel)
    ensures
        forall|i: int|
            0 <= i < written(draft.finished()).len() ==> is_spoken_message(
                #[trigger] written(draft.finished())[i],
            ),
{
    let message = message_of(draft.blocks, draft.role);
    if draft.finished() is Some {
        assert forall|i: int| 0 <= i < message.texts.len() implies #[trigger] message.texts[i].len()
            > 0 by {
            law_no_text_is_empty(draft.blocks, draft.role, i);
        }
        assert(is_spoken_message(message_json(message)));
    }
}

proof fn lemma_completed_is_spoken(payloads: Seq<JsonTree>)
    requires
        forall|i: int| 0 <= i < payloads.len() ==> !(event_of(#[trigger] payloads[i]) is Foreign),
    ensures
        forall|i: int|
            0 <= i < completed(payloads).len() ==> is_spoken_message(
                #[trigger] completed(payloads)[i],
            ),
    decreases payloads.len(),
{
    if payloads.len() > 0 {
        let earlier = payloads.drop_last();
        assert forall|i: int| 0 <= i < earlier.len() implies !(event_of(
            #[trigger] earlier[i],
        ) is Foreign) by {
            assert(earlier[i] == payloads[i]);
        }
        lemma_completed_is_spoken(earlier);
        lemma_finished_is_spoken(draft_after(earlier));
        assert(payloads.last() == payloads[payloads.len() - 1]);
        let added = emitted(draft_after(earlier), payloads.last());
        assert forall|i: int| 0 <= i < completed(payloads).len() implies is_spoken_message(
            #[trigger] completed(payloads)[i],
        ) by {
            if i < completed(earlier).len() {
                assert(completed(payloads)[i] == completed(earlier)[i]);
            } else {
                assert(completed(payloads)[i] == added[i - completed(earlier).len()]);
            }
        }
    }
}

/// Where every payload reports an event, every message says something: only text is
/// returned, and no message and no text is empty.
pub proof fn law_every_message_says_something(payloads: Seq<JsonTree>, at: int)
    requires
        forall|i: int| 0 <= i < payloads.len() ==> !(event_of(#[trigger] payloads[i]) is Foreign),
        0 <= at < aggregated(payloads).len(),
    ensures
        is_spoken_message(aggregated(payloads)[at]),
{
    lemma_completed_is_spoken(payloads);
    lemma_finished_is_spoken(draft_after(payloads));
    let last = written(draft_after(payloads).finished());
    if at < completed(payloads).len() {
        assert(aggregated(payloads)[at] == completed(payloads)[at]);
    } else {
        assert(aggregated(payloads)[at] == last[at - completed(payloads).len()]);
    }
}

} // verus!
