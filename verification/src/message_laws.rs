//! What holds of every message that blocks make.
use crate::message::{block_models, message_json, role_or_default, Block, Message, MessageModel};
use crate::message::{in_order, is_ascending, is_said, law_listing_is_order, lists};
use crate::message::{law_order_is_unique, message_of, said_texts, BlockModel};
use vstd::prelude::*;
use vstd::relations::total_ordering;

verus! {

/// Finitely many indices have an order.
pub proof fn law_order_exists(given: Set<i64>)
    requires
        given.finite(),
    ensures
        lists(in_order(given), given),
    decreases given.len(),
{
    if given.len() == 0 {
        assert(Seq::<i64>::empty().to_set() =~= given);
        law_listing_is_order(Seq::empty(), given);
    } else {
        let leq = |a: i64, b: i64| a <= b;
        assert(total_ordering(leq));
        let greatest = given.find_unique_maximal(leq);
        given.find_unique_maximal_ensures(leq);
        let rest = given.remove(greatest);
        law_order_exists(rest);
        let shorter = in_order(rest);
        let indices = shorter.push(greatest);
        assert forall|i: int| 0 <= i < shorter.len() implies shorter[i] < greatest by {
            assert(shorter.to_set().contains(shorter[i]));
            assert(given.contains(shorter[i]));
            assert(leq(greatest, shorter[i]) ==> leq(shorter[i], greatest));
        }
        assert(is_ascending(indices));
        assert(indices.to_set() =~= given) by {
            assert forall|k: i64| indices.to_set().contains(k) <==> given.contains(k) by {
                assert(indices.last() == greatest);
                if rest.contains(k) {
                    assert(shorter.to_set().contains(k));
                    let i = choose|i: int| 0 <= i < shorter.len() && shorter[i] == k;
                    assert(indices[i] == k);
                }
                if indices.contains(k) && k != greatest {
                    let i = choose|i: int| 0 <= i < indices.len() && indices[i] == k;
                    assert(shorter[i] == k);
                    assert(shorter.to_set().contains(k));
                }
            }
        }
        law_listing_is_order(indices, given);
    }
}

proof fn lemma_said_texts_agree(
    a: Map<i64, BlockModel>,
    b: Map<i64, BlockModel>,
    indices: Seq<i64>,
)
    requires
        forall|i: int| 0 <= i < indices.len() ==> a[#[trigger] indices[i]] == b[indices[i]],
    ensures
        said_texts(a, indices) == said_texts(b, indices),
    decreases indices.len(),
{
    if indices.len() > 0 {
        assert(indices.last() == indices[indices.len() - 1]);
        lemma_said_texts_agree(a, b, indices.drop_last());
    }
}

proof fn lemma_said_texts_skip(blocks: Map<i64, BlockModel>, indices: Seq<i64>, at: int)
    requires
        is_ascending(indices),
        0 <= at < indices.len(),
        !is_said(blocks[indices[at]]),
    ensures
        said_texts(blocks.remove(indices[at]), indices.remove(at)) == said_texts(blocks, indices),
    decreases indices.len(),
{
    let index = indices[at];
    let shorter = indices.remove(at);
    if at == indices.len() - 1 {
        assert(shorter =~= indices.drop_last());
        lemma_said_texts_agree(blocks, blocks.remove(index), shorter);
    } else {
        assert(indices.drop_last()[at] == index);
        lemma_said_texts_skip(blocks, indices.drop_last(), at);
        assert(shorter.drop_last() =~= indices.drop_last().remove(at));
        assert(shorter.last() == indices.last());
        assert(indices.last() == indices[indices.len() - 1]);
    }
}

/// A block that is no text block, such as the use of a tool, and a block without
/// text are no part of a message: without it the message is the same.
pub proof fn law_silent_block_is_skipped(
    blocks: Map<i64, BlockModel>,
    index: i64,
    role: Option<Seq<char>>,
)
    requires
        blocks.dom().finite(),
        blocks.contains_key(index),
        !is_said(blocks[index]),
    ensures
        message_of(blocks.remove(index), role) == message_of(blocks, role),
{
    let indices = in_order(blocks.dom());
    law_order_exists(blocks.dom());
    assert(indices.to_set().contains(index));
    let at = choose|i: int| 0 <= i < indices.len() && indices[i] == index;
    let shorter = indices.remove(at);
    let rest = blocks.remove(index);
    assert(shorter.to_set() =~= rest.dom()) by {
        assert forall|k: i64| shorter.to_set().contains(k) <==> rest.dom().contains(k) by {
            if shorter.contains(k) {
                let i = choose|i: int| 0 <= i < shorter.len() && shorter[i] == k;
                assert(indices[if i < at { i } else { i + 1 }] == k);
                assert(indices.to_set().contains(k));
            }
            if rest.contains_key(k) {
                assert(indices.to_set().contains(k));
                let i = choose|i: int| 0 <= i < indices.len() && indices[i] == k;
                assert(shorter[if i < at { i } else { i - 1 }] == k);
            }
        }
    }
    law_listing_is_order(shorter, rest.dom());
    lemma_said_texts_skip(blocks, indices, at);
}

proof fn lemma_said_texts_hold(blocks: Map<i64, BlockModel>, indices: Seq<i64>)
    ensures
        forall|i: int|
            0 <= i < said_texts(blocks, indices).len() ==> #[trigger] said_texts(
                blocks,
                indices,
            )[i].len() > 0,
        forall|i: int|
            0 <= i < indices.len() && is_said(blocks[#[trigger] indices[i]]) ==> said_texts(
                blocks,
                indices,
            ).contains(blocks[indices[i]].text),
    decreases indices.len(),
{
    if indices.len() > 0 {
        let shorter = indices.drop_last();
        let before = said_texts(blocks, shorter);
        let after = said_texts(blocks, indices);
        lemma_said_texts_hold(blocks, shorter);
        assert forall|i: int|
            0 <= i < indices.len() && is_said(blocks[#[trigger] indices[i]]) implies after.contains(
            blocks[indices[i]].text,
        ) by {
            if i == indices.len() - 1 {
                assert(after.last() == blocks[indices[i]].text);
            } else {
                assert(shorter[i] == indices[i]);
                assert(before.contains(blocks[indices[i]].text));
                let j = choose|j: int|
                    0 <= j < before.len() && before[j] == blocks[indices[i]].text;
                assert(after[j] == before[j]);
            }
        }
        assert forall|i: int| 0 <= i < after.len() implies #[trigger] after[i].len() > 0 by {
            if i < before.len() {
                assert(after[i] == before[i]);
            }
        }
    }
}

/// No text of a message is empty.
pub proof fn law_no_text_is_empty(
    blocks: Map<i64, BlockModel>,
    role: Option<Seq<char>>,
    at: int,
)
    requires
        0 <= at < message_of(blocks, role).texts.len(),
    ensures
        message_of(blocks, role).texts[at].len() > 0,
{
    lemma_said_texts_hold(blocks, in_order(blocks.dom()));
}

/// A text block that holds text is part of its message.
pub proof fn law_text_block_is_said(
    blocks: Map<i64, BlockModel>,
    index: i64,
    role: Option<Seq<char>>,
)
    requires
        blocks.dom().finite(),
        blocks.contains_key(index),
        is_said(blocks[index]),
    ensures
        message_of(blocks, role).texts.contains(blocks[index].text),
{
    let indices = in_order(blocks.dom());
    law_order_exists(blocks.dom());
    assert(indices.to_set().contains(index));
    let at = choose|i: int| 0 <= i < indices.len() && indices[i] == index;
    assert(indices[at] == index);
    lemma_said_texts_hold(blocks, indices);
}

/// The given indices whose blocks are said.
spec fn said_indices(blocks: Map<i64, BlockModel>, indices: Seq<i64>) -> Seq<i64>
    decreases indices.len(),
{
    if indices.len() == 0 {
        Seq::empty()
    } else if blocks[indices.last()].kind == "text"@ && blocks[indices.last()].text.len() > 0 {
        said_indices(blocks, indices.drop_last()).push(indices.last())
    } else {
        said_indices(blocks, indices.drop_last())
    }
}

proof fn lemma_said_indices(blocks: Map<i64, BlockModel>, indices: Seq<i64>)
    requires
        is_ascending(indices),
    ensures
        is_ascending(said_indices(blocks, indices)),
        forall|k: i64| #[trigger]
            said_indices(blocks, indices).contains(k) <==> indices.contains(k) && blocks[k].kind
                == "text"@ && blocks[k].text.len() > 0,
        said_texts(blocks, indices) == said_indices(blocks, indices).map_values(
            |k: i64| blocks[k].text,
        ),
    decreases indices.len(),
{
    let said = said_indices(blocks, indices);
    if indices.len() == 0 {
        assert(said_texts(blocks, indices) =~= said.map_values(|k: i64| blocks[k].text));
    } else {
        let shorter = indices.drop_last();
        let last = indices.last();
        let before = said_indices(blocks, shorter);
        lemma_said_indices(blocks, shorter);
        assert forall|i: int| 0 <= i < before.len() implies before[i] < last by {
            assert(before.contains(before[i]));
            let j = choose|j: int| 0 <= j < shorter.len() && shorter[j] == before[i];
            assert(indices[j] < indices[indices.len() - 1]);
        }
        assert forall|k: i64| #[trigger]
            said.contains(k) <==> indices.contains(k) && blocks[k].kind == "text"@
                && blocks[k].text.len() > 0 by {
            if said.contains(k) {
                let i = choose|i: int| 0 <= i < said.len() && said[i] == k;
                if i < before.len() {
                    assert(before[i] == k);
                    assert(before.contains(k));
                    let j = choose|j: int| 0 <= j < shorter.len() && shorter[j] == k;
                    assert(indices[j] == k);
                } else {
                    assert(indices[indices.len() - 1] == k);
                }
            }
            if indices.contains(k) && blocks[k].kind == "text"@ && blocks[k].text.len() > 0 {
                if k == last {
                    assert(said[said.len() - 1] == k);
                } else {
                    let j = choose|j: int| 0 <= j < indices.len() && indices[j] == k;
                    assert(shorter[j] == k);
                    assert(before.contains(k));
                    let i = choose|i: int| 0 <= i < before.len() && before[i] == k;
                    assert(said[i] == k);
                }
            }
        }
        assert(said_texts(blocks, indices) =~= said.map_values(|k: i64| blocks[k].text));
    }
}

/// A message says the texts of exactly the blocks that are of the kind `text` and hold
/// text, one for each, by index, upwards.
pub proof fn law_message_says_exactly_its_texts(
    blocks: Map<i64, BlockModel>,
    role: Option<Seq<char>>,
    said: Seq<i64>,
)
    requires
        blocks.dom().finite(),
        forall|i: int, j: int| 0 <= i < j < said.len() ==> said[i] < said[j],
        forall|k: i64| #[trigger]
            said.contains(k) <==> blocks.contains_key(k) && blocks[k].kind == "text"@
                && blocks[k].text.len() > 0,
    ensures
        message_of(blocks, role).texts.len() == said.len(),
        forall|i: int|
            0 <= i < said.len() ==> message_of(blocks, role).texts[i] == blocks[
                #[trigger] said[i]
            ].text,
{
    let indices = in_order(blocks.dom());
    law_order_exists(blocks.dom());
    lemma_said_indices(blocks, indices);
    let found = said_indices(blocks, indices);
    assert forall|k: i64| found.to_set().contains(k) <==> said.to_set().contains(k) by {
        assert(found.contains(k) <==> said.contains(k)) by {
            assert(indices.contains(k) <==> indices.to_set().contains(k));
        }
    }
    assert(found.to_set() =~= said.to_set());
    law_order_is_unique(found, said, said.to_set());
}

/// A message has the role that was announced, whatever its blocks are, and is the
/// assistant's where none was.
pub proof fn law_message_has_its_role(
    blocks: Map<i64, BlockModel>,
    announced: Seq<char>,
)
    ensures
        message_of(blocks, Some(announced)).role == announced,
        message_of(blocks, None).role == "assistant"@,
        role_or_default(Some(announced)) == announced,
        role_or_default(None) == "assistant"@,
        message_of(blocks, Some(announced)).texts == message_of(blocks, None).texts,
{
}

/// A message as JSON tells its role and has an item for each of its texts, in their
/// order: an object that says that it is text, and the text. There is nothing else in
/// it.
pub proof fn law_message_json_tells_all(message: MessageModel)
    ensures
        message_json(message).text_member("role"@) == Some(message.role),
        forall|name: Seq<char>| #[trigger]
            message_json(message).member(name) is Some <==> name == "role"@ || name == "content"@,
        message_json(message).member("content"@)->0 is Array,
        ({
            let items = message_json(message).member("content"@)->0->Array_0;
            &&& items.len() == message.texts.len()
            &&& forall|i: int|
                0 <= i < items.len() ==> {
                    &&& #[trigger] items[i] is Object
                    &&& items[i].text_member("type"@) == Some("text"@)
                    &&& items[i].text_member("text"@) == Some(message.texts[i])
                    &&& items[i]->Object_0.dom() == set!["type"@, "text"@]
                }
        }),
{
    reveal_strlit("role");
    reveal_strlit("content");
    reveal_strlit("type");
    reveal_strlit("text");
    assert("role"@.len() != "content"@.len());
    assert("type"@[1] != "text"@[1]);
    let items = message_json(message).member("content"@)->0->Array_0;
    assert forall|i: int| 0 <= i < items.len() implies {
        &&& #[trigger] items[i] is Object
        &&& items[i].text_member("type"@) == Some("text"@)
        &&& items[i].text_member("text"@) == Some(message.texts[i])
        &&& items[i]->Object_0.dom() == set!["type"@, "text"@]
    } by {
        assert(items[i]->Object_0.dom() =~= set!["type"@, "text"@]);
    }
}

/// No two messages have the same JSON.
pub proof fn law_message_json_is_one_to_one(a: MessageModel, b: MessageModel)
    requires
        message_json(a) == message_json(b),
    ensures
        a == b,
{
    law_message_json_tells_all(a);
    law_message_json_tells_all(b);
    let items = message_json(a).member("content"@)->0->Array_0;
    assert forall|i: int| 0 <= i < a.texts.len() implies a.texts[i] == b.texts[i] by {
        assert(items[i].text_member("text"@) == Some(a.texts[i]));
    }
    assert(a.texts =~= b.texts);
}

/// The model of a block, of blocks and of a message holds what they hold, text for
/// text.
pub proof fn law_models_hold_all(
    block: Block,
    blocks: Map<i64, Block>,
    index: i64,
    message: Message,
    at: int,
)
    ensures
        block@.kind == block.kind@,
        block@.text == block.text@,
        block_models(blocks).contains_key(index) <==> blocks.contains_key(index),
        blocks.contains_key(index) ==> block_models(blocks)[index].kind == blocks[index].kind@
            && block_models(blocks)[index].text == blocks[index].text@,
        message@.role == message.role@,
        message@.texts.len() == message.texts@.len(),
        0 <= at < message.texts@.len() ==> message@.texts[at] == message.texts@[at]@,
{
}

} // verus!
