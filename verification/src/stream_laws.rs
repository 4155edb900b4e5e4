//! Streams of events that make the same messages.
use crate::aggregate::{aggregated, completed, draft_after, emitted, written, DraftModel};
use crate::aggregate::law_no_blocks_no_message;
use crate::aggregate_laws::{announced_role, completed_from, draft_from, lemma_first, lemma_joined};
use crate::aggregate_laws::law_role_is_the_last_announced;
use crate::draft_laws::law_draft_makes_message;
use crate::event::{event_of, EventModel};
use crate::json::JsonTree;
use crate::message::{message_json, BlockModel, MessageModel};
use vstd::prelude::*;

verus! {

/// Payloads that leave the same draft and complete the same messages can stand for each
/// other.
proof fn lemma_exchanged(
    before: Seq<JsonTree>,
    some: Seq<JsonTree>,
    others: Seq<JsonTree>,
    behind: Seq<JsonTree>,
)
    requires
        draft_from(draft_after(before), some) == draft_from(draft_after(before), others),
        completed_from(draft_after(before), some) == completed_from(draft_after(before), others),
    ensures
        aggregated(before + some + behind) == aggregated(before + others + behind),
{
    lemma_joined(before, some);
    lemma_joined(before, others);
    lemma_joined(before + some, behind);
    lemma_joined(before + others, behind);
}

proof fn lemma_one(draft: DraftModel, payload: JsonTree)
    ensures
        draft_from(draft, seq![payload]) == draft.after(event_of(payload)),
        completed_from(draft, seq![payload]) == emitted(draft, payload),
{
    let none = Seq::<JsonTree>::empty();
    lemma_first(draft, payload, none);
    assert(seq![payload] + none =~= seq![payload]);
    assert(draft_from(draft.after(event_of(payload)), none) == draft.after(event_of(payload)));
    assert(completed_from(draft.after(event_of(payload)), none) =~= none);
    assert(emitted(draft, payload) + none =~= emitted(draft, payload));
}

proof fn lemma_two(draft: DraftModel, first: JsonTree, second: JsonTree)
    ensures
        draft_from(draft, seq![first, second]) == draft.after(event_of(first)).after(
            event_of(second),
        ),
        completed_from(draft, seq![first, second]) == emitted(draft, first) + emitted(
            draft.after(event_of(first)),
            second,
        ),
{
    lemma_first(draft, first, seq![second]);
    lemma_one(draft.after(event_of(first)), second);
    assert(seq![first] + seq![second] =~= seq![first, second]);
}

/// The index of the block that an event is about.
pub open spec fn block_of(event: EventModel) -> Option<i64> {
    match event {
        EventModel::BlockStart { index, .. } => Some(index),
        EventModel::TextDelta { index, .. } => Some(index),
        EventModel::InputDelta { index, .. } => Some(index),
        _ => None,
    }
}

/// No payloads make no messages.
pub proof fn law_nothing_makes_nothing()
    ensures
        aggregated(Seq::<JsonTree>::empty()) == Seq::<JsonTree>::empty(),
{
    law_no_blocks_no_message(None);
    assert(aggregated(Seq::<JsonTree>::empty()) =~= Seq::<JsonTree>::empty());
}

/// One more payload: a payload that reports no event is handed on behind the messages
/// that are complete, the start of a message completes the one that was open, and no
/// other event completes any.
pub proof fn law_payload_is_added(payloads: Seq<JsonTree>, payload: JsonTree)
    ensures
        draft_after(Seq::<JsonTree>::empty()) == DraftModel::start(),
        completed(Seq::<JsonTree>::empty()) == Seq::<JsonTree>::empty(),
        draft_after(payloads.push(payload)) == draft_after(payloads).after(event_of(payload)),
        event_of(payload) is Foreign ==> completed(payloads.push(payload)) == completed(
            payloads,
        ).push(payload),
        event_of(payload) is MessageStart ==> completed(payloads.push(payload)) == aggregated(
            payloads,
        ),
        !(event_of(payload) is Foreign || event_of(payload) is MessageStart) ==> completed(
            payloads.push(payload),
        ) == completed(payloads),
{
    assert(payloads.push(payload).drop_last() =~= payloads);
    assert(completed(payloads.push(payload)) =~= completed(payloads) + emitted(
        draft_after(payloads),
        payload,
    ));
    assert(completed(payloads) + seq![payload] =~= completed(payloads).push(payload));
    assert(completed(payloads) + Seq::<JsonTree>::empty() =~= completed(payloads));
}

/// The messages are those that are complete and then the one that is open, where that
/// says anything.
pub proof fn law_open_message_comes_last(payloads: Seq<JsonTree>)
    ensures
        draft_after(payloads).finished() is None ==> aggregated(payloads) == completed(payloads),
        draft_after(payloads).finished() is Some ==> aggregated(payloads) == completed(
            payloads,
        ).push(message_json(draft_after(payloads).finished()->0)),
{
    assert(aggregated(payloads) =~= completed(payloads) + written(
        draft_after(payloads).finished(),
    ));
}

/// A payload in front of all others that reports no event is handed on in front of their
/// messages.
pub proof fn law_first_foreign_payload_comes_first(foreign: JsonTree, behind: Seq<JsonTree>)
    requires
        event_of(foreign) is Foreign,
    ensures
        aggregated(seq![foreign] + behind) == seq![foreign] + aggregated(behind),
{
    let none = Seq::<JsonTree>::empty();
    let all = seq![foreign] + behind;
    assert(none + all =~= all);
    assert(none + behind =~= behind);
    lemma_joined(none, all);
    lemma_joined(none, behind);
    lemma_first(DraftModel::start(), foreign, behind);
    assert(aggregated(all) =~= seq![foreign] + aggregated(behind));
}

/// A payload that reports no event is handed on behind the messages that the start of a
/// message in front of it completes, and ahead of that message.
pub proof fn law_foreign_payload_follows_start(
    before: Seq<JsonTree>,
    start: JsonTree,
    foreign: JsonTree,
)
    requires
        event_of(start) is MessageStart,
        event_of(foreign) is Foreign,
    ensures
        aggregated(before + seq![start, foreign]) == aggregated(before).push(foreign),
{
    let all = before + seq![start, foreign];
    assert(before.push(start).push(foreign) =~= all);
    law_payload_is_added(before, start);
    law_payload_is_added(before.push(start), foreign);
    law_no_blocks_no_message(draft_after(all).role);
    assert(aggregated(all) =~= completed(all));
}

/// A payload that reports no event can stand on either side of an event that does not
/// start a message.
pub proof fn law_foreign_payload_can_move(
    before: Seq<JsonTree>,
    foreign: JsonTree,
    event: JsonTree,
    behind: Seq<JsonTree>,
)
    requires
        event_of(foreign) is Foreign,
        !(event_of(event) is Foreign),
        !(event_of(event) is MessageStart),
    ensures
        aggregated(before + seq![foreign, event] + behind) == aggregated(
            before + seq![event, foreign] + behind,
        ),
{
    let draft = draft_after(before);
    lemma_two(draft, foreign, event);
    lemma_two(draft, event, foreign);
    assert(completed_from(draft, seq![foreign, event]) =~= completed_from(
        draft,
        seq![event, foreign],
    ));
    lemma_exchanged(before, seq![foreign, event], seq![event, foreign], behind);
}

/// The start of a block and a piece for it behind it, of whichever sort, make what the
/// start of a block that has that text already makes.
pub proof fn law_piece_joins_started_block(
    before: Seq<JsonTree>,
    block: JsonTree,
    piece: JsonTree,
    whole: JsonTree,
    behind: Seq<JsonTree>,
)
    requires
        event_of(block) is BlockStart,
        event_of(whole) is BlockStart,
        event_of(whole)->BlockStart_index == event_of(block)->BlockStart_index,
        event_of(whole)->kind == event_of(block)->kind,
        ({
            ||| event_of(piece) is TextDelta && event_of(piece)->TextDelta_index == event_of(
                block,
            )->BlockStart_index && event_of(whole)->BlockStart_text == event_of(
                block,
            )->BlockStart_text + event_of(piece)->TextDelta_text
            ||| event_of(piece) is InputDelta && event_of(piece)->InputDelta_index == event_of(
                block,
            )->BlockStart_index && event_of(whole)->BlockStart_text == event_of(
                block,
            )->BlockStart_text + event_of(piece)->InputDelta_text
        }),
    ensures
        aggregated(before + seq![block, piece] + behind) == aggregated(
            before + seq![whole] + behind,
        ),
{
    let draft = draft_after(before);
    lemma_two(draft, block, piece);
    lemma_one(draft, whole);
    assert(draft.after(event_of(block)).after(event_of(piece)).blocks =~= draft.after(
        event_of(whole),
    ).blocks);
    assert(completed_from(draft, seq![block, piece]) =~= completed_from(draft, seq![whole]));
    lemma_exchanged(before, seq![block, piece], seq![whole], behind);
}

/// The start of a block takes the place of what came before for the block at its index.
pub proof fn law_block_start_supersedes(
    before: Seq<JsonTree>,
    earlier: JsonTree,
    block: JsonTree,
    behind: Seq<JsonTree>,
)
    requires
        event_of(block) is BlockStart,
        block_of(event_of(earlier)) == Some(event_of(block)->BlockStart_index),
    ensures
        aggregated(before + seq![earlier, block] + behind) == aggregated(
            before + seq![block] + behind,
        ),
{
    let draft = draft_after(before);
    lemma_two(draft, earlier, block);
    lemma_one(draft, block);
    assert(draft.after(event_of(earlier)).after(event_of(block)).blocks =~= draft.after(
        event_of(block),
    ).blocks);
    assert(completed_from(draft, seq![earlier, block]) =~= completed_from(draft, seq![block]));
    lemma_exchanged(before, seq![earlier, block], seq![block], behind);
}

/// Events about different blocks can come in either order.
pub proof fn law_different_blocks_commute(
    before: Seq<JsonTree>,
    first: JsonTree,
    second: JsonTree,
    behind: Seq<JsonTree>,
)
    requires
        block_of(event_of(first)) is Some,
        block_of(event_of(second)) is Some,
        block_of(event_of(first)) != block_of(event_of(second)),
    ensures
        aggregated(before + seq![first, second] + behind) == aggregated(
            before + seq![second, first] + behind,
        ),
{
    let draft = draft_after(before);
    lemma_two(draft, first, second);
    lemma_two(draft, second, first);
    assert(draft.after(event_of(first)).after(event_of(second)).blocks =~= draft.after(
        event_of(second),
    ).after(event_of(first)).blocks);
    assert(completed_from(draft, seq![first, second]) =~= completed_from(
        draft,
        seq![second, first],
    ));
    lemma_exchanged(before, seq![first, second], seq![second, first], behind);
}

/// The first piece for a block that was never started does what the start of that block
/// would have done: a piece of text that of a text block, a piece of input that of the
/// use of a tool.
pub proof fn law_piece_starts_its_block(
    before: Seq<JsonTree>,
    start: JsonTree,
    piece: JsonTree,
    block: JsonTree,
    behind: Seq<JsonTree>,
)
    requires
        event_of(start) is MessageStart,
        event_of(block) is BlockStart,
        ({
            ||| event_of(piece) is TextDelta && event_of(block)->kind == "text"@ && event_of(
                piece,
            )->TextDelta_index == event_of(block)->BlockStart_index && event_of(
                piece,
            )->TextDelta_text == event_of(block)->BlockStart_text
            ||| event_of(piece) is InputDelta && event_of(block)->kind == "tool_use"@ && event_of(
                piece,
            )->InputDelta_index == event_of(block)->BlockStart_index && event_of(
                piece,
            )->InputDelta_text == event_of(block)->BlockStart_text
        }),
    ensures
        aggregated(before + seq![start, piece] + behind) == aggregated(
            before + seq![start, block] + behind,
        ),
{
    let draft = draft_after(before);
    lemma_two(draft, start, piece);
    lemma_two(draft, start, block);
    lemma_exchanged(before, seq![start, piece], seq![start, block], behind);
}

/// A start that announces no role changes nothing in front of all other payloads.
pub proof fn law_first_bare_start_changes_nothing(start: JsonTree, behind: Seq<JsonTree>)
    requires
        event_of(start) is MessageStart,
        event_of(start)->role is None,
    ensures
        aggregated(seq![start] + behind) == aggregated(behind),
{
    let none = Seq::<JsonTree>::empty();
    let draft = DraftModel::start();
    lemma_one(draft, start);
    law_no_blocks_no_message(None);
    assert(draft_from(draft, none) == draft);
    assert(draft.after(event_of(start)) == draft);
    assert(completed_from(draft, none) =~= none);
    assert(emitted(draft, start) =~= none);
    lemma_exchanged(none, seq![start], none, behind);
    assert(none + seq![start] + behind =~= seq![start] + behind);
    assert(none + none + behind =~= behind);
}

/// A start that announces no role does what a start does that announces the role that
/// was announced last.
pub proof fn law_bare_start_repeats_role(
    before: Seq<JsonTree>,
    bare: JsonTree,
    named: JsonTree,
    behind: Seq<JsonTree>,
)
    requires
        event_of(bare) is MessageStart,
        event_of(bare)->role is None,
        event_of(named) is MessageStart,
        event_of(named)->role is Some,
        event_of(named)->role == announced_role(before),
    ensures
        aggregated(before + seq![bare] + behind) == aggregated(before + seq![named] + behind),
{
    let draft = draft_after(before);
    law_role_is_the_last_announced(before);
    lemma_one(draft, bare);
    lemma_one(draft, named);
    lemma_exchanged(before, seq![bare], seq![named], behind);
}

proof fn lemma_started_blocks(draft: DraftModel, blocks: Seq<JsonTree>)
    requires
        draft.blocks == Map::<i64, BlockModel>::empty(),
        forall|i: int| 0 <= i < blocks.len() ==> event_of(#[trigger] blocks[i]) is BlockStart,
        forall|i: int, j: int|
            0 <= i < j < blocks.len() ==> event_of(#[trigger] blocks[i])->BlockStart_index
                < event_of(#[trigger] blocks[j])->BlockStart_index,
    ensures
        draft_from(draft, blocks).blocks.dom().finite(),
        draft_from(draft, blocks).role == draft.role,
        completed_from(draft, blocks) == Seq::<JsonTree>::empty(),
        forall|i: int|
            0 <= i < blocks.len() ==> {
                let event = event_of(#[trigger] blocks[i]);
                let held = draft_from(draft, blocks).blocks;
                &&& held.contains_key(event->BlockStart_index)
                &&& held[event->BlockStart_index].kind == event->kind
                &&& held[event->BlockStart_index].text == event->BlockStart_text
            },
        forall|k: i64| #[trigger]
            draft_from(draft, blocks).blocks.contains_key(k) ==> exists|i: int|
                0 <= i < blocks.len() && event_of(#[trigger] blocks[i])->BlockStart_index == k,
    decreases blocks.len(),
{
    if blocks.len() > 0 {
        let earlier = blocks.drop_last();
        let last = blocks.len() - 1;
        assert forall|i: int| 0 <= i < earlier.len() implies event_of(
            #[trigger] earlier[i],
        ) is BlockStart by {
            assert(earlier[i] == blocks[i]);
        }
        assert forall|i: int, j: int| 0 <= i < j < earlier.len() implies event_of(
            #[trigger] earlier[i],
        )->BlockStart_index < event_of(#[trigger] earlier[j])->BlockStart_index by {
            assert(earlier[i] == blocks[i]);
            assert(earlier[j] == blocks[j]);
        }
        lemma_started_blocks(draft, earlier);
        let held = draft_from(draft, blocks).blocks;
        let held_before = draft_from(draft, earlier).blocks;
        let started = event_of(blocks[last]);
        assert(blocks.last() == blocks[last]);
        assert(held.dom() =~= held_before.dom().insert(started->BlockStart_index));
        assert(completed_from(draft, blocks) =~= Seq::<JsonTree>::empty());
        assert forall|i: int| 0 <= i < blocks.len() implies {
            let event = event_of(#[trigger] blocks[i]);
            &&& held.contains_key(event->BlockStart_index)
            &&& held[event->BlockStart_index].kind == event->kind
            &&& held[event->BlockStart_index].text == event->BlockStart_text
        } by {
            if i < last {
                assert(earlier[i] == blocks[i]);
                assert(event_of(blocks[i])->BlockStart_index < event_of(
                    blocks[last],
                )->BlockStart_index);
            }
        }
        assert forall|k: i64| #[trigger] held.contains_key(k) implies exists|i: int|
            0 <= i < blocks.len() && event_of(#[trigger] blocks[i])->BlockStart_index == k by {
            if k == started->BlockStart_index {
                assert(event_of(blocks[last])->BlockStart_index == k);
            } else {
                assert(held_before.contains_key(k));
                let i = choose|i: int|
                    0 <= i < earlier.len() && event_of(#[trigger] earlier[i])->BlockStart_index
                        == k;
                assert(event_of(blocks[i])->BlockStart_index == k);
            }
        }
    }
}

/// The start of a message and then the starts of its blocks, upwards by index, make one
/// message. It says the texts of those blocks that are of the kind `text` and hold text,
/// in that order, and nothing is made where there is none. The role is the one announced,
/// or the assistant's.
pub proof fn law_blocks_make_one_message(start: JsonTree, blocks: Seq<JsonTree>, said: Seq<int>)
    requires
        event_of(start) is MessageStart,
        forall|i: int| 0 <= i < blocks.len() ==> event_of(#[trigger] blocks[i]) is BlockStart,
        forall|i: int, j: int|
            0 <= i < j < blocks.len() ==> event_of(#[trigger] blocks[i])->BlockStart_index
                < event_of(#[trigger] blocks[j])->BlockStart_index,
        forall|i: int, j: int| 0 <= i < j < said.len() ==> said[i] < said[j],
        forall|i: int| #[trigger]
            said.contains(i) <==> 0 <= i < blocks.len() && event_of(blocks[i])->kind == "text"@
                && event_of(blocks[i])->BlockStart_text.len() > 0,
    ensures
        said.len() == 0 ==> aggregated(seq![start] + blocks) == Seq::<JsonTree>::empty(),
        said.len() > 0 ==> aggregated(seq![start] + blocks) == seq![
            message_json(
                MessageModel {
                    role: match event_of(start)->role {
                        Some(announced) => announced,
                        None => "assistant"@,
                    },
                    texts: said.map_values(|i: int| event_of(blocks[i])->BlockStart_text),
                },
            ),
        ],
{
    let none = Seq::<JsonTree>::empty();
    let all = seq![start] + blocks;
    let opened = DraftModel::start().after(event_of(start));
    assert(none + all =~= all);
    lemma_joined(none, all);
    lemma_first(DraftModel::start(), start, blocks);
    law_no_blocks_no_message(None);
    lemma_started_blocks(opened, blocks);
    let draft = draft_after(all);
    assert(draft == draft_from(opened, blocks));
    assert(completed(all) =~= none);
    let indices = said.map_values(|i: int| event_of(blocks[i])->BlockStart_index);
    assert forall|i: int, j: int| 0 <= i < j < indices.len() implies indices[i] < indices[j] by {
        assert(said.contains(said[i]));
        assert(said.contains(said[j]));
        assert(event_of(blocks[said[i]])->BlockStart_index < event_of(
            blocks[said[j]],
        )->BlockStart_index);
    }
    assert forall|k: i64| #[trigger]
        indices.contains(k) <==> draft.blocks.contains_key(k) && draft.blocks[k].kind == "text"@
            && draft.blocks[k].text.len() > 0 by {
        if indices.contains(k) {
            let j = choose|j: int| 0 <= j < indices.len() && indices[j] == k;
            assert(said.contains(said[j]));
            assert(event_of(blocks[said[j]])->BlockStart_index == k);
        }
        if draft.blocks.contains_key(k) && draft.blocks[k].kind == "text"@
            && draft.blocks[k].text.len() > 0 {
            let i = choose|i: int|
                0 <= i < blocks.len() && event_of(#[trigger] blocks[i])->BlockStart_index == k;
            assert(said.contains(i));
            let j = choose|j: int| 0 <= j < said.len() && said[j] == i;
            assert(indices[j] == k);
        }
    }
    law_draft_makes_message(draft, indices);
    let texts = said.map_values(|i: int| event_of(blocks[i])->BlockStart_text);
    assert(indices.map_values(|k: i64| draft.blocks[k].text) =~= texts) by {
        assert forall|j: int| 0 <= j < said.len() implies draft.blocks[#[trigger] indices[j]].text
            == texts[j] by {
            assert(said.contains(said[j]));
            assert(event_of(blocks[said[j]])->BlockStart_index == indices[j]);
        }
    }
    law_open_message_comes_last(all);
    assert(none.push(message_json(draft.finished()->0)) =~= seq![
        message_json(draft.finished()->0),
    ]);
}

} // verus!
