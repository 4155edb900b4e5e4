//! From stream events to messages.
use crate::event::{event_of, read_event, EventModel, StreamEvent};
use crate::json::{copy_of, trees, value_tree, JsonTree};
use crate::message::{build_message, message_to_json, Block, BlockModel, Message, MessageModel};
use crate::message::{block_models, law_listing_is_order, message_json, message_of};
use crate::text::maybe_text;
use std::collections::HashMap;
use vstd::prelude::*;

verus! {

broadcast use vstd::std_specs::hash::group_hash_axioms;

/// The message that is being received.
pub struct Draft {
    /// Its content blocks, by index.
    pub blocks: HashMap<i64, Block>,
    /// The role that was announced last.
    pub role: Option<String>,
}

/// What a draft holds.
pub struct DraftModel {
    pub blocks: Map<i64, BlockModel>,
    pub role: Option<Seq<char>>,
}

impl View for Draft {
    type V = DraftModel;

    open spec fn view(&self) -> DraftModel {
        DraftModel { blocks: block_models(self.blocks@), role: maybe_text(self.role) }
    }
}

impl DraftModel {
    /// The draft before any event.
    pub open spec fn start() -> DraftModel {
        DraftModel { blocks: Map::empty(), role: None }
    }

    /// The message of the draft, if it says anything.
    pub open spec fn finished(self) -> Option<MessageModel> {
        let message = message_of(self.blocks, self.role);
        if message.texts.len() > 0 {
            Some(message)
        } else {
            None
        }
    }

    /// The draft once a block has started. A block that stood at the index is gone.
    pub open spec fn with_block(self, index: i64, block: BlockModel) -> DraftModel {
        DraftModel { blocks: self.blocks.insert(index, block), role: self.role }
    }

    /// The draft once a piece has come for the block at an index. Where no block has
    /// started there, the piece starts one of the given kind.
    pub open spec fn with_piece(self, index: i64, kind: Seq<char>, text: Seq<char>) -> DraftModel {
        self.with_block(
            index,
            if self.blocks.contains_key(index) {
                BlockModel {
                    kind: self.blocks[index].kind,
                    text: self.blocks[index].text + text,
                }
            } else {
                BlockModel { kind, text }
            },
        )
    }

    /// The draft after an event.
    pub open spec fn after(self, event: EventModel) -> DraftModel {
        match event {
            EventModel::MessageStart { role } => DraftModel {
                blocks: Map::empty(),
                role: if role is Some {
                    role
                } else {
                    self.role
                },
            },
            EventModel::BlockStart { index, kind, text } => self.with_block(
                index,
                BlockModel { kind, text },
            ),
            EventModel::TextDelta { index, text } => self.with_piece(index, "text"@, text),
            EventModel::InputDelta { index, text } => self.with_piece(index, "tool_use"@, text),
            _ => self,
        }
    }
}

/// What a payload adds to the messages: a payload that reports no event is handed on
/// as it is, and the start of a message ends the one before.
pub open spec fn emitted(draft: DraftModel, payload: JsonTree) -> Seq<JsonTree> {
    match event_of(payload) {
        EventModel::Foreign => seq![payload],
        EventModel::MessageStart { .. } => written(draft.finished()),
        _ => Seq::empty(),
    }
}

/// A message that may be missing, as JSON.
pub open spec fn written(message: Option<MessageModel>) -> Seq<JsonTree> {
    match message {
        Some(model) => seq![message_json(model)],
        None => Seq::empty(),
    }
}

/// The draft after the given payloads.
pub open spec fn draft_after(payloads: Seq<JsonTree>) -> DraftModel
    decreases payloads.len(),
{
    if payloads.len() == 0 {
        DraftModel::start()
    } else {
        draft_after(payloads.drop_last()).after(event_of(payloads.last()))
    }
}

/// The messages that the given payloads complete.
pub open spec fn completed(payloads: Seq<JsonTree>) -> Seq<JsonTree>
    decreases payloads.len(),
{
    if payloads.len() == 0 {
        Seq::empty()
    } else {
        completed(payloads.drop_last()) + emitted(
            draft_after(payloads.drop_last()),
            payloads.last(),
        )
    }
}

/// The messages of the given payloads: those that are complete, and the one that
/// the payloads leave open.
pub open spec fn aggregated(payloads: Seq<JsonTree>) -> Seq<JsonTree> {
    completed(payloads) + written(draft_after(payloads).finished())
}

/// A draft without blocks makes no message.
pub proof fn law_no_blocks_no_message(role: Option<Seq<char>>)
    ensures
        (DraftModel { blocks: Map::empty(), role }).finished() is None,
{
    let none = Map::<i64, BlockModel>::empty();
    assert(Seq::<i64>::empty().to_set() =~= none.dom());
    law_listing_is_order(Seq::empty(), none.dom());
}

impl Draft {
    /// The draft before any event.
    pub fn new() -> (draft: Draft)
        ensures
            draft@ == DraftModel::start(),
    {
        let draft = Draft { blocks: HashMap::new(), role: None };
        assert(block_models(draft.blocks@) =~= Map::<i64, BlockModel>::empty());
        draft
    }

    /// Ends the message: hands it out if it says anything, and drops its blocks. The
    /// role stays.
    pub fn finish(&mut self) -> (message: Option<Message>)
        ensures
            match message {
                Some(m) => old(self)@.finished() == Some(m@),
                None => old(self)@.finished() is None,
            },
            final(self)@ == (DraftModel { blocks: Map::empty(), role: old(self)@.role }),
    {
        if self.blocks.is_empty() {
            assert(self.blocks@ =~= Map::<i64, Block>::empty());
            assert(block_models(self.blocks@) =~= Map::<i64, BlockModel>::empty());
            proof {
                law_no_blocks_no_message(self@.role);
            }
            return None;
        }
        let message = build_message(&mut self.blocks, &self.role);
        assert(block_models(self.blocks@) =~= Map::<i64, BlockModel>::empty());
        if message.texts.is_empty() {
            None
        } else {
            Some(message)
        }
    }

    /// Adds a piece to the block at an index, which starts with it if need be.
    fn add_piece(&mut self, index: i64, kind: &str, text: &str)
        ensures
            final(self)@ == old(self)@.with_piece(index, kind@, text@),
    {
        let block = match self.blocks.remove(&index) {
            Some(block) => {
                let mut grown = block;
                grown.text.append(text);
                grown
            },
            None => Block { kind: kind.to_owned(), text: text.to_owned() },
        };
        self.blocks.insert(index, block);
        assert(self@.blocks =~= old(self)@.with_piece(index, kind@, text@).blocks);
    }

    /// Takes an event in. The start of a message hands out the message before it, if
    /// that says anything.
    pub fn apply(&mut self, event: StreamEvent) -> (message: Option<Message>)
        ensures
            final(self)@ == old(self)@.after(event@),
            match message {
                Some(m) => event@ is MessageStart && old(self)@.finished() == Some(m@),
                None => event@ is MessageStart ==> old(self)@.finished() is None,
            },
    {
        match event {
            StreamEvent::MessageStart { role } => {
                let message = self.finish();
                if role.is_some() {
                    self.role = role;
                }
                message
            },
            StreamEvent::BlockStart { index, kind, text } => {
                self.blocks.insert(index, Block { kind, text });
                assert(self@.blocks =~= old(self)@.after(event@).blocks);
                None
            },
            StreamEvent::TextDelta { index, text } => {
                self.add_piece(index, "text", text.as_str());
                None
            },
            StreamEvent::InputDelta { index, text } => {
                self.add_piece(index, "tool_use", text.as_str());
                None
            },
            StreamEvent::Foreign => None,
            StreamEvent::Idle => None,
        }
    }
}

/// Aggregates the events of a stream into messages. A value that reports no event is
/// handed on as it is.
pub fn aggregate_stream_events(events: &[serde_json::Value]) -> (messages: Vec<serde_json::Value>)
    ensures
        trees(messages@) == aggregated(trees(events@)),
{
    let mut messages: Vec<serde_json::Value> = Vec::new();
    let mut draft = Draft::new();
    let ghost payloads = trees(events@);
    assert(payloads.take(0) =~= Seq::<JsonTree>::empty());
    let mut i: usize = 0;
    while i < events.len()
        invariant
            i <= events.len(),
            payloads == trees(events@),
            draft@ == draft_after(payloads.take(i as int)),
            trees(messages@) == completed(payloads.take(i as int)),
        decreases events.len() - i,
    {
        let event = &events[i];
        assert(payloads.take(i + 1).drop_last() =~= payloads.take(i as int));
        assert(payloads.take(i + 1).last() == value_tree(*event));
        match read_event(event) {
            StreamEvent::Foreign => {
                messages.push(copy_of(event));
            },
            read => if let Some(message) = draft.apply(read) {
                messages.push(message_to_json(message));
            },
        }
        assert(trees(messages@) =~= completed(payloads.take(i + 1)));
        i += 1;
    }
    assert(payloads.take(payloads.len() as int) =~= payloads);
    if let Some(message) = draft.finish() {
        messages.push(message_to_json(message));
    }
    assert(trees(messages@) =~= aggregated(payloads));
    messages
}

} // verus!
