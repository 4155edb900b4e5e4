//! The relay of raw logs, which numbers what the process writes.
use crate::relay::{Relay, RelayAction, RelayEvent};
use vstd::prelude::*;

verus! {

/// A message of the stream of raw logs.
#[derive(Debug)]
pub enum RawLog {
    /// The process has written to its standard output.
    Stdout(String),
    /// The process has written to its standard error.
    Stderr(String),
    /// The process has finished.
    Finished,
}

/// What the client is sent for a message of the stream.
#[derive(Debug)]
pub enum RawFrame {
    /// A patch that adds an entry with standard output at an index.
    AddStdout { index: usize, content: String },
    /// A patch that adds an entry with standard error at an index.
    AddStderr { index: usize, content: String },
    /// The process has finished.
    Finished,
}

/// The index behind a given one. It starts over behind the greatest.
pub open spec fn index_after(index: usize) -> usize {
    if index == usize::MAX {
        0
    } else {
        (index + 1) as usize
    }
}

/// The frame for a message, where `index` is free.
pub open spec fn frame_at(log: RawLog, index: usize) -> RawFrame {
    match log {
        RawLog::Stdout(content) => RawFrame::AddStdout { index, content },
        RawLog::Stderr(content) => RawFrame::AddStderr { index, content },
        RawLog::Finished => RawFrame::Finished,
    }
}

/// The free index behind a message, where `index` was free before it.
pub open spec fn free_after(log: RawLog, index: usize) -> usize {
    match log {
        RawLog::Finished => index,
        _ => index_after(index),
    }
}

/// The relay of raw logs.
#[derive(Clone, Copy, Debug)]
pub struct RawRelay {
    pub relay: Relay,
    /// The index of the next entry.
    pub next_index: usize,
}

/// An event of the stream of raw logs, as the relay gets it.
pub open spec fn framed(event: RelayEvent<RawLog>, index: usize) -> RelayEvent<RawFrame> {
    match event {
        RelayEvent::Item(log) => RelayEvent::Item(frame_at(log, index)),
        RelayEvent::StreamFailed => RelayEvent::StreamFailed,
        RelayEvent::StreamEnded => RelayEvent::StreamEnded,
        RelayEvent::Received(inbound) => RelayEvent::Received(inbound),
        RelayEvent::Sent(delivered) => RelayEvent::Sent(delivered),
        RelayEvent::Closed => RelayEvent::Closed,
    }
}

impl RawRelay {
    /// The relay after an event.
    pub open spec fn after(self, event: RelayEvent<RawLog>) -> RawRelay {
        RawRelay {
            relay: self.relay.after(event),
            next_index: match event {
                RelayEvent::Item(log) => free_after(log, self.next_index),
                _ => self.next_index,
            },
        }
    }

    /// What the relay asks for after an event.
    pub open spec fn answer(self, event: RelayEvent<RawLog>) -> RelayAction<RawFrame> {
        self.relay.answer(framed(event, self.next_index))
    }

    /// A relay for the logs of a process, and its first action. `found` says whether
    /// there are any.
    pub fn start(found: bool) -> (started: (RawRelay, RelayAction<RawFrame>))
        ensures
            started.0.next_index == 0,
            found ==> started.0.relay.phase is Waiting && started.1 is Wait,
            !found ==> started.0.relay.phase is Refusing && started.1 is SendFinished,
            started.0.relay.closes,
    {
        let (relay, action) = if found {
            Relay::open(true)
        } else {
            Relay::refuse()
        };
        (RawRelay { relay, next_index: 0 }, action)
    }

    /// The frame for a message. An entry gets the next index.
    pub fn frame(&mut self, log: RawLog) -> (frame: RawFrame)
        ensures
            frame == frame_at(log, old(self).next_index),
            *final(self) == (RawRelay {
                relay: old(self).relay,
                next_index: free_after(log, old(self).next_index),
            }),
    {
        let index = self.next_index;
        match log {
            RawLog::Stdout(content) => {
                self.advance();
                RawFrame::AddStdout { index, content }
            },
            RawLog::Stderr(content) => {
                self.advance();
                RawFrame::AddStderr { index, content }
            },
            RawLog::Finished => RawFrame::Finished,
        }
    }

    /// Uses the next index up.
    fn advance(&mut self)
        ensures
            *final(self) == (RawRelay {
                relay: old(self).relay,
                next_index: index_after(old(self).next_index),
            }),
    {
        self.next_index = self.next_index.wrapping_add(1);
    }

    /// Takes an event in and says what to do next.
    pub fn step(&mut self, event: RelayEvent<RawLog>) -> (action: RelayAction<RawFrame>)
        requires
            old(self).relay.spec_expects(event),
        ensures
            *final(self) == old(self).after(event),
            action == old(self).answer(event),
            !(action is SendFinished),
            action is Send <==> event is Item,
    {
        let handed: RelayEvent<RawFrame> = match event {
            RelayEvent::Item(log) => RelayEvent::Item(self.frame(log)),
            RelayEvent::StreamFailed => RelayEvent::StreamFailed,
            RelayEvent::StreamEnded => RelayEvent::StreamEnded,
            RelayEvent::Received(inbound) => RelayEvent::Received(inbound),
            RelayEvent::Sent(delivered) => RelayEvent::Sent(delivered),
            RelayEvent::Closed => RelayEvent::Closed,
        };
        self.relay.step(handed)
    }
}

} // verus!
