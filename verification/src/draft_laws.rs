//! What each event makes of a draft, and what message a draft makes.
use crate::aggregate::{Draft, DraftModel};
use crate::event::EventModel;
use crate::message::{message_of, BlockModel};
use crate::message_laws::{law_message_has_its_role, law_message_says_exactly_its_texts};
use vstd::prelude::*;

verus! {

/// A draft starts without blocks and without a role.
pub proof fn law_draft_starts_empty(index: i64)
    ensures
        !DraftModel::start().blocks.contains_key(index),
        DraftModel::start().blocks.dom().finite(),
        DraftModel::start().role is None,
{
}

/// The start of a message drops every block. The role is the one that it announces; where
/// it announces none, the role stays.
pub proof fn law_message_start_drops_blocks(draft: DraftModel, announced: Seq<char>, index: i64)
    ensures
        ({
            let named = draft.after(EventModel::MessageStart { role: Some(announced) });
            let unnamed = draft.after(EventModel::MessageStart { role: None });
            &&& !named.blocks.contains_key(index)
            &&& !unnamed.blocks.contains_key(index)
            &&& named.role == Some(announced)
            &&& unnamed.role == draft.role
        }),
{
}

/// The start of a block puts the block at its index, whatever stood there. It touches no
/// other block and not the role.
pub proof fn law_block_start_puts_block(
    draft: DraftModel,
    index: i64,
    kind: Seq<char>,
    text: Seq<char>,
    other: i64,
)
    ensures
        ({
            let after = draft.after(EventModel::BlockStart { index, kind, text });
            &&& after.blocks.contains_key(index)
            &&& after.blocks[index].kind == kind
            &&& after.blocks[index].text == text
            &&& other != index ==> {
                &&& after.blocks.contains_key(other) <==> draft.blocks.contains_key(other)
                &&& after.blocks[other] == draft.blocks[other]
            }
            &&& after.role == draft.role
        }),
{
}

/// A piece of text goes behind the text of the block at its index, and the kind of the
/// block stays. Where there is no block, the piece is the text of a new text block.
pub proof fn law_text_delta_extends_block(
    draft: DraftModel,
    index: i64,
    text: Seq<char>,
    other: i64,
)
    ensures
        ({
            let after = draft.after(EventModel::TextDelta { index, text });
            &&& after.blocks.contains_key(index)
            &&& draft.blocks.contains_key(index) ==> {
                &&& after.blocks[index].kind == draft.blocks[index].kind
                &&& after.blocks[index].text == draft.blocks[index].text + text
            }
            &&& !draft.blocks.contains_key(index) ==> {
                &&& after.blocks[index].kind == "text"@
                &&& after.blocks[index].text == text
            }
            &&& other != index ==> {
                &&& after.blocks.contains_key(other) <==> draft.blocks.contains_key(other)
                &&& after.blocks[other] == draft.blocks[other]
            }
            &&& after.role == draft.role
        }),
{
}

/// A piece of the input of a tool goes behind the text of the block at its index, and the
/// kind of the block stays. Where there is no block, the piece is the text of a new block
/// of the kind `tool_use`.
pub proof fn law_input_delta_extends_block(
    draft: DraftModel,
    index: i64,
    text: Seq<char>,
    other: i64,
)
    ensures
        ({
            let after = draft.after(EventModel::InputDelta { index, text });
            &&& after.blocks.contains_key(index)
            &&& draft.blocks.contains_key(index) ==> {
                &&& after.blocks[index].kind == draft.blocks[index].kind
                &&& after.blocks[index].text == draft.blocks[index].text + text
            }
            &&& !draft.blocks.contains_key(index) ==> {
                &&& after.blocks[index].kind == "tool_use"@
                &&& after.blocks[index].text == text
            }
            &&& other != index ==> {
                &&& after.blocks.contains_key(other) <==> draft.blocks.contains_key(other)
                &&& after.blocks[other] == draft.blocks[other]
            }
            &&& after.role == draft.role
        }),
{
}

/// Nothing else touches a draft.
pub proof fn law_nothing_else_touches_draft(draft: DraftModel)
    ensures
        draft.after(EventModel::Foreign) == draft,
        draft.after(EventModel::Idle) == draft,
{
}

/// A draft makes a message exactly where a block of the kind `text` holds text. The
/// message says the texts of those blocks, upwards by index, and has the role of the
/// draft, or the assistant's.
pub proof fn law_draft_makes_message(draft: DraftModel, said: Seq<i64>)
    requires
        draft.blocks.dom().finite(),
        forall|i: int, j: int| 0 <= i < j < said.len() ==> said[i] < said[j],
        forall|k: i64| #[trigger]
            said.contains(k) <==> draft.blocks.contains_key(k) && draft.blocks[k].kind == "text"@
                && draft.blocks[k].text.len() > 0,
    ensures
        draft.finished() is Some <==> said.len() > 0,
        said.len() > 0 ==> {
            &&& draft.finished()->0.texts == said.map_values(|k: i64| draft.blocks[k].text)
            &&& draft.role is Some ==> Some(draft.finished()->0.role) == draft.role
            &&& draft.role is None ==> draft.finished()->0.role == "assistant"@
        },
{
    law_message_says_exactly_its_texts(draft.blocks, draft.role, said);
    law_message_has_its_role(draft.blocks, draft.role->0);
    let message = message_of(draft.blocks, draft.role);
    assert(message.texts =~= said.map_values(|k: i64| draft.blocks[k].text));
}

/// The model of a draft holds what the draft holds.
pub proof fn law_draft_model_holds_all(draft: Draft, index: i64)
    ensures
        draft@.role is Some <==> draft.role is Some,
        draft.role is Some ==> draft@.role->0 == draft.role->0@,
        draft@.blocks.contains_key(index) <==> draft.blocks@.contains_key(index),
        draft.blocks@.contains_key(index) ==> draft@.blocks[index] == (BlockModel {
            kind: draft.blocks@[index].kind@,
            text: draft.blocks@[index].text@,
        }),
{
}

} // verus!
