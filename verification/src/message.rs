//! Messages and the content blocks that they are built from.
use crate::json::{build_array, build_text, object_of_two, trees, value_tree, JsonTree};
use crate::text::{maybe_text, same_text, texts};
use std::collections::HashMap;
use vstd::prelude::*;

verus! {

broadcast use vstd::std_specs::hash::group_hash_axioms;

/// A content block while its message is being received.
#[derive(Debug)]
pub struct Block {
    /// What the block is: `text`, `tool_use`, and so on.
    pub kind: String,
    /// What has arrived of its content.
    pub text: String,
}

/// What a content block holds.
pub struct BlockModel {
    pub kind: Seq<char>,
    pub text: Seq<char>,
}

impl View for Block {
    type V = BlockModel;

    open spec fn view(&self) -> BlockModel {
        BlockModel { kind: self.kind@, text: self.text@ }
    }
}

/// What the blocks of a message hold, by their index.
pub open spec fn block_models(blocks: Map<i64, Block>) -> Map<i64, BlockModel> {
    blocks.map_values(|block: Block| block@)
}

/// A message: who speaks, and the texts that are said.
#[derive(Debug)]
pub struct Message {
    pub role: String,
    pub texts: Vec<String>,
}

/// What a message holds.
pub struct MessageModel {
    pub role: Seq<char>,
    pub texts: Seq<Seq<char>>,
}

impl View for Message {
    type V = MessageModel;

    open spec fn view(&self) -> MessageModel {
        MessageModel { role: self.role@, texts: texts(self.texts@) }
    }
}

/// Whether a sequence runs upwards, with no index twice.
pub open spec fn is_ascending(indices: Seq<i64>) -> bool {
    forall|i: int, j: int| 0 <= i < j < indices.len() ==> indices[i] < indices[j]
}

/// Whether a sequence lists exactly the given indices, upwards.
pub open spec fn lists(indices: Seq<i64>, given: Set<i64>) -> bool {
    &&& is_ascending(indices)
    &&& indices.to_set() == given
}

/// The given indices, upwards.
pub open spec fn in_order(given: Set<i64>) -> Seq<i64> {
    choose|indices: Seq<i64>| lists(indices, given)
}

/// Whether a block is part of what a message says: a text block that holds text.
pub open spec fn is_said(block: BlockModel) -> bool {
    block.kind == "text"@ && block.text.len() > 0
}

/// The texts of the blocks at the given indices, in their order, without the blocks
/// that are no part of what is said.
pub open spec fn said_texts(blocks: Map<i64, BlockModel>, indices: Seq<i64>) -> Seq<Seq<char>>
    decreases indices.len(),
{
    if indices.len() == 0 {
        Seq::empty()
    } else if is_said(blocks[indices.last()]) {
        said_texts(blocks, indices.drop_last()).push(blocks[indices.last()].text)
    } else {
        said_texts(blocks, indices.drop_last())
    }
}

/// The role of a message: the one announced, else `assistant`.
pub open spec fn role_or_default(role: Option<Seq<char>>) -> Seq<char> {
    match role {
        Some(announced) => announced,
        None => "assistant"@,
    }
}

/// The message that the blocks make: the texts of its text blocks by index, upwards.
pub open spec fn message_of(
    blocks: Map<i64, BlockModel>,
    role: Option<Seq<char>>,
) -> MessageModel {
    MessageModel {
        role: role_or_default(role),
        texts: said_texts(blocks, in_order(blocks.dom())),
    }
}

/// A text of a message as JSON: `{"type": "text", "text": ..}`.
pub open spec fn text_json(text: Seq<char>) -> JsonTree {
    JsonTree::Object(
        map![
            "type"@ => JsonTree::Text("text"@),
            "text"@ => JsonTree::Text(text),
        ],
    )
}

/// A message as JSON: `{"role": .., "content": [..]}`.
pub open spec fn message_json(message: MessageModel) -> JsonTree {
    JsonTree::Object(
        map![
            "role"@ => JsonTree::Text(message.role),
            "content"@ => JsonTree::Array(
                message.texts.map_values(|text: Seq<char>| text_json(text)),
            ),
        ],
    )
}

/// Only one sequence lists given indices upwards.
pub proof fn law_order_is_unique(a: Seq<i64>, b: Seq<i64>, given: Set<i64>)
    requires
        lists(a, given),
        lists(b, given),
    ensures
        a == b,
    decreases a.len(),
{
    if a.len() == 0 {
        if b.len() > 0 {
            assert(given.contains(b[0]));
            assert(a.contains(b[0]));
        }
    } else {
        assert(a.to_set().contains(a.last()));
        assert(b.to_set().contains(a.last()));
        assert(b.to_set().contains(b.last()));
        assert(a.to_set().contains(b.last()));
        lemma_shorter_listing(a, given);
        lemma_shorter_listing(b, given);
        law_order_is_unique(a.drop_last(), b.drop_last(), given.remove(a.last()));
        assert(a =~= a.drop_last().push(a.last()));
        assert(b =~= b.drop_last().push(b.last()));
    }
}

proof fn lemma_shorter_listing(a: Seq<i64>, given: Set<i64>)
    requires
        lists(a, given),
        a.len() > 0,
    ensures
        lists(a.drop_last(), given.remove(a.last())),
{
    assert forall|k: i64| a.drop_last().to_set().contains(k) <==> given.remove(
        a.last(),
    ).contains(k) by {
        if a.drop_last().contains(k) {
            let i = choose|i: int| 0 <= i < a.drop_last().len() && a.drop_last()[i] == k;
            assert(a[i] == k);
            assert(a.contains(k));
        }
        if given.contains(k) && k != a.last() {
            assert(a.contains(k));
            let i = choose|i: int| 0 <= i < a.len() && a[i] == k;
            assert(a.drop_last()[i] == k);
        }
    }
    assert(a.drop_last().to_set() =~= given.remove(a.last()));
}

/// A sequence that lists the given indices upwards is their order.
pub proof fn law_listing_is_order(indices: Seq<i64>, given: Set<i64>)
    requires
        lists(indices, given),
    ensures
        in_order(given) == indices,
{
    law_order_is_unique(in_order(given), indices, given);
}

/// Puts an index in its place in a list that runs upwards.
fn insert_ascending(indices: &mut Vec<i64>, index: i64)
    requires
        is_ascending(old(indices)@),
        !old(indices)@.contains(index),
    ensures
        is_ascending(final(indices)@),
        final(indices)@.to_set() == old(indices)@.to_set().insert(index),
{
    let mut at: usize = 0;
    while at < indices.len() && indices[at] < index
        invariant
            at <= indices.len(),
            indices@ == old(indices)@,
            forall|i: int| 0 <= i < at ==> indices@[i] < index,
        decreases indices.len() - at,
    {
        at += 1;
    }
    let ghost before = indices@;
    assert(forall|i: int| 0 <= i < before.len() ==> before.contains(before[i]));
    indices.insert(at, index);
    let ghost after = indices@;
    assert(after == before.insert(at as int, index));
    assert forall|k: i64| after.to_set().contains(k) <==> before.to_set().insert(index).contains(
        k,
    ) by {
        if before.contains(k) {
            let i = choose|i: int| 0 <= i < before.len() && before[i] == k;
            assert(after[if i < at { i } else { i + 1 }] == k);
        }
        assert(after[at as int] == index);
        if after.contains(k) && k != index {
            let i = choose|i: int| 0 <= i < after.len() && after[i] == k;
            assert(before[if i < at { i } else { i - 1 }] == k);
        }
    }
    assert(after.to_set() =~= before.to_set().insert(index));
}

/// The indices of the blocks, upwards.
fn block_order(blocks: &HashMap<i64, Block>) -> (indices: Vec<i64>)
    ensures
        lists(indices@, blocks@.dom()),
        indices@ == in_order(blocks@.dom()),
{
    let mut indices: Vec<i64> = Vec::new();
    assert(indices@.to_set() =~= Set::<i64>::empty());
    for index in it: blocks.keys()
        invariant
            it.seq().unref().to_set() == blocks@.dom(),
            it.seq().unref().take(it.seq().len() as int) == it.seq().unref(),
            it.seq().no_duplicates(),
            is_ascending(indices@),
            indices@.to_set() == it.seq().unref().take(it.index() as int).to_set(),
    {
        let ghost keys = it.seq().unref();
        let ghost at = it.index() as int;
        let ghost seen = keys.take(at);
        assert(keys[at] == *index);
        assert(!seen.contains(*index)) by {
            if seen.contains(*index) {
                let i = choose|i: int| 0 <= i < seen.len() && seen[i] == *index;
                assert(it.seq()[i] == it.seq()[at]);
            }
        }
        assert(!indices@.contains(*index)) by {
            assert(!indices@.to_set().contains(*index));
        }
        insert_ascending(&mut indices, *index);
        assert(keys.take(at + 1) =~= seen.push(keys[at]));
        assert(seen.push(keys[at]).to_set() =~= seen.to_set().insert(*index)) by {
            broadcast use vstd::seq_lib::group_seq_properties;

        }
    }
    proof {
        law_listing_is_order(indices@, blocks@.dom());
    }
    indices
}

/// Takes the blocks of a message and builds the message. No block is left behind.
pub fn build_message(
    blocks: &mut HashMap<i64, Block>,
    current_role: &Option<String>,
) -> (message: Message)
    ensures
        final(blocks)@ == Map::<i64, Block>::empty(),
        message@ == message_of(block_models(old(blocks)@), maybe_text(*current_role)),
{
    let ghost all = blocks@;
    let ghost models = block_models(all);
    let order = block_order(blocks);
    let mut said: Vec<String> = Vec::new();
    let mut i: usize = 0;
    assert(order@.take(0) =~= Seq::<i64>::empty());
    while i < order.len()
        invariant
            i <= order.len(),
            lists(order@, all.dom()),
            models == block_models(all),
            forall|k: i64| #[trigger]
                blocks@.contains_key(k) <==> all.contains_key(k) && (i == 0 || order@[i - 1] < k),
            forall|k: i64| #[trigger] blocks@.contains_key(k) ==> blocks@[k] == all[k],
            texts(said@) == said_texts(models, order@.take(i as int)),
        decreases order.len() - i,
    {
        let index = order[i];
        let ghost said_before = said@;
        assert(order@.to_set().contains(index));
        assert(order@.take(i + 1).drop_last() =~= order@.take(i as int));
        if let Some(block) = blocks.remove(&index) {
            assert(block == all[index]);
            if same_text(block.kind.as_str(), "text") && !block.text.as_str().is_empty() {
                said.push(block.text);
                assert(texts(said@) =~= texts(said_before).push(block.text@));
            }
        }
        i += 1;
        assert forall|k: i64| all.contains_key(k) && (i == 1 || order@[i - 2] < k) && k
            != index implies order@[i - 1] < k by {
            assert(order@.to_set().contains(k));
        }
    }
    assert(order@.take(order@.len() as int) =~= order@);
    assert(blocks@ =~= Map::<i64, Block>::empty()) by {
        assert forall|k: i64| !blocks@.contains_key(k) by {
            if all.contains_key(k) {
                assert(order@.to_set().contains(k));
            }
        }
    }
    assert(models.dom() =~= all.dom());
    let role = match current_role {
        Some(announced) => announced.clone(),
        None => "assistant".to_owned(),
    };
    Message { role, texts: said }
}

/// A text of a message as JSON.
fn text_to_json(text: String) -> (value: serde_json::Value)
    ensures
        value_tree(value) == text_json(text@),
{
    proof {
        reveal_strlit("type");
        reveal_strlit("text");
        assert("type"@[1] != "text"@[1]);
    }
    object_of_two("type", build_text("text".to_owned()), "text", build_text(text))
}

/// A message as JSON.
pub fn message_to_json(message: Message) -> (value: serde_json::Value)
    ensures
        value_tree(value) == message_json(message@),
{
    let ghost said = texts(message.texts@).map_values(|text: Seq<char>| text_json(text));
    let mut content: Vec<serde_json::Value> = Vec::new();
    assert(trees(content@) =~= said.take(0));
    for text in it: message.texts
        invariant
            texts(it.seq()).map_values(|text: Seq<char>| text_json(text)) == said,
            said.take(it.seq().len() as int) == said,
            trees(content@) == said.take(it.index() as int),
    {
        let ghost before = content@;
        content.push(text_to_json(text));
        assert(trees(content@) =~= trees(before).push(text_json(text@)));
        assert(said.take(it.index() + 1) =~= said.take(it.index() as int).push(text_json(text@)));
    }
    proof {
        reveal_strlit("role");
        reveal_strlit("content");
        assert("role"@.len() != "content"@.len());
    }
    object_of_two("role", build_text(message.role), "content", build_array(content))
}

} // verus!
