//! The relay between a stream of messages and a WebSocket.
//!
//! A relay waits for whichever comes first, the next message of the stream or
//! something from the client. It hands the messages of the stream on until the
//! stream or the client is done. `Relay` decides; whoever runs it performs the
//! action and reports what came of it.
use vstd::prelude::*;

verus! {

/// What comes from the client.
#[derive(Clone, Copy, Debug)]
pub enum Inbound {
    /// A close frame.
    Close,
    /// Any other frame.
    Other,
    /// Nothing more.
    Ended,
    /// An error.
    Failed,
}

/// What a relay is told.
#[derive(Debug)]
pub enum RelayEvent<M> {
    /// The stream has a message.
    Item(M),
    /// The stream has failed.
    StreamFailed,
    /// The stream has ended.
    StreamEnded,
    /// Something has come from the client.
    Received(Inbound),
    /// A message has been sent, or could not be sent.
    Sent(bool),
    /// The connection has been closed, or could not be closed.
    Closed,
}

/// What a relay asks for.
#[derive(Debug)]
pub enum RelayAction<M> {
    /// Wait for the stream and for the client.
    Wait,
    /// Send a message.
    Send(M),
    /// Send the message that says that there is nothing to come.
    SendFinished,
    /// Send a close frame.
    Close,
    /// Do nothing more.
    Stop,
}

/// What a relay is in the middle of.
#[derive(Clone, Copy, Debug)]
pub enum Phase {
    /// It waits for the stream and for the client.
    Waiting,
    /// It sends a message of the stream.
    Sending,
    /// It tells the client that there is nothing to come.
    Refusing,
    /// It closes the connection.
    Closing,
    /// It is done.
    Over,
}

/// A relay.
#[derive(Clone, Copy, Debug)]
pub struct Relay {
    pub phase: Phase,
    /// Whether the relay closes the connection when it leaves it.
    pub closes: bool,
}

impl Relay {
    /// Whether an event can come now: it is what came of the last action.
    pub open spec fn spec_expects<M>(self, event: RelayEvent<M>) -> bool {
        match self.phase {
            Phase::Waiting => event is Item || event is StreamFailed || event is StreamEnded
                || event is Received,
            Phase::Sending => event is Sent,
            Phase::Refusing => event is Sent,
            Phase::Closing => event is Closed,
            Phase::Over => false,
        }
    }

    /// The relay in another phase.
    pub open spec fn in_phase(self, phase: Phase) -> Relay {
        Relay { phase, closes: self.closes }
    }

    /// The phase in which the relay leaves the connection.
    pub open spec fn leaving(self) -> Phase {
        if self.closes {
            Phase::Closing
        } else {
            Phase::Over
        }
    }

    /// What the relay is in the middle of after an event.
    pub open spec fn phase_after<M>(self, event: RelayEvent<M>) -> Phase {
        match event {
            RelayEvent::Item(_) => Phase::Sending,
            RelayEvent::StreamFailed => self.leaving(),
            RelayEvent::StreamEnded => self.leaving(),
            RelayEvent::Received(inbound) => if inbound is Other {
                Phase::Waiting
            } else {
                self.leaving()
            },
            RelayEvent::Sent(delivered) => if self.phase is Refusing {
                Phase::Closing
            } else if delivered {
                Phase::Waiting
            } else {
                self.leaving()
            },
            RelayEvent::Closed => Phase::Over,
        }
    }

    /// The relay after an event.
    pub open spec fn after<M>(self, event: RelayEvent<M>) -> Relay {
        self.in_phase(self.phase_after(event))
    }

    /// What the relay asks for after an event.
    pub open spec fn answer<M>(self, event: RelayEvent<M>) -> RelayAction<M> {
        match event {
            RelayEvent::Item(message) => RelayAction::Send(message),
            _ => match self.phase_after(event) {
                Phase::Closing => RelayAction::Close,
                Phase::Over => RelayAction::Stop,
                _ => RelayAction::Wait,
            },
        }
    }

    /// A relay for a stream that was found, and its first action.
    pub fn open<M>(closes: bool) -> (started: (Relay, RelayAction<M>))
        ensures
            started.0 == (Relay { phase: Phase::Waiting, closes }),
            started.1 == RelayAction::<M>::Wait,
    {
        (Relay { phase: Phase::Waiting, closes }, RelayAction::Wait)
    }

    /// A relay for a stream that was not found, and its first action. The client is
    /// told that there is nothing to come and gets a clean close, so that it does not
    /// try again.
    pub fn refuse<M>() -> (started: (Relay, RelayAction<M>))
        ensures
            started.0 == (Relay { phase: Phase::Refusing, closes: true }),
            started.1 == RelayAction::<M>::SendFinished,
    {
        (Relay { phase: Phase::Refusing, closes: true }, RelayAction::SendFinished)
    }

    /// The relay of the normalized logs of a process, and its first action. `found`
    /// says whether there are any. It closes the connection when it leaves.
    pub fn for_normalized_logs<M>(found: bool) -> (started: (Relay, RelayAction<M>))
        ensures
            started.0.closes,
            found ==> started.0.phase is Waiting && started.1 is Wait,
            !found ==> started.0.phase is Refusing && started.1 is SendFinished,
    {
        if found {
            Relay::open(true)
        } else {
            Relay::refuse()
        }
    }

    /// The relay of the processes of a session, and its first action. It leaves the
    /// connection without closing it.
    pub fn for_session<M>() -> (started: (Relay, RelayAction<M>))
        ensures
            started.0 == (Relay { phase: Phase::Waiting, closes: false }),
            started.1 is Wait,
    {
        Relay::open(false)
    }

    /// Whether an event can come now.
    pub fn expects<M>(&self, event: &RelayEvent<M>) -> (expected: bool)
        ensures
            expected == self.spec_expects(*event),
    {
        match self.phase {
            Phase::Waiting => match event {
                RelayEvent::Item(_) => true,
                RelayEvent::StreamFailed => true,
                RelayEvent::StreamEnded => true,
                RelayEvent::Received(_) => true,
                RelayEvent::Sent(_) => false,
                RelayEvent::Closed => false,
            },
            Phase::Sending => match event {
                RelayEvent::Sent(_) => true,
                _ => false,
            },
            Phase::Refusing => match event {
                RelayEvent::Sent(_) => true,
                _ => false,
            },
            Phase::Closing => match event {
                RelayEvent::Closed => true,
                _ => false,
            },
            Phase::Over => false,
        }
    }

    /// Leaves the connection.
    fn leave<M>(&mut self) -> (action: RelayAction<M>)
        ensures
            *final(self) == old(self).in_phase(old(self).leaving()),
            action == if old(self).closes {
                RelayAction::<M>::Close
            } else {
                RelayAction::<M>::Stop
            },
    {
        if self.closes {
            self.phase = Phase::Closing;
            RelayAction::Close
        } else {
            self.phase = Phase::Over;
            RelayAction::Stop
        }
    }

    /// Takes an event in and says what to do next.
    pub fn step<M>(&mut self, event: RelayEvent<M>) -> (action: RelayAction<M>)
        requires
            old(self).spec_expects(event),
        ensures
            *final(self) == old(self).after(event),
            action == old(self).answer(event),
            final(self).closes == old(self).closes,
            !(action is SendFinished),
            event matches RelayEvent::Item(message) ==> action == RelayAction::Send(message),
            event matches RelayEvent::Sent(true) ==> (action is Wait <==> old(
                self,
            ).phase is Sending),
    {
        match event {
            RelayEvent::Item(message) => {
                self.phase = Phase::Sending;
                RelayAction::Send(message)
            },
            RelayEvent::StreamFailed => self.leave(),
            RelayEvent::StreamEnded => self.leave(),
            RelayEvent::Received(inbound) => match inbound {
                Inbound::Other => {
                    self.phase = Phase::Waiting;
                    RelayAction::Wait
                },
                _ => self.leave(),
            },
            RelayEvent::Sent(delivered) => match self.phase {
                Phase::Refusing => {
                    self.phase = Phase::Closing;
                    RelayAction::Close
                },
                _ => if delivered {
                    self.phase = Phase::Waiting;
                    RelayAction::Wait
                } else {
                    self.leave()
                },
            },
            RelayEvent::Closed => {
                self.phase = Phase::Over;
                RelayAction::Stop
            },
        }
    }
}

/// The relay after the given events.
pub open spec fn relay_after<M>(relay: Relay, events: Seq<RelayEvent<M>>) -> Relay
    decreases events.len(),
{
    if events.len() == 0 {
        relay
    } else {
        relay_after(relay, events.drop_last()).after(events.last())
    }
}

/// Whether the given events can come, one after the other.
pub open spec fn can_come<M>(relay: Relay, events: Seq<RelayEvent<M>>) -> bool {
    forall|i: int|
        #![trigger events[i]]
        0 <= i < events.len() ==> relay_after(relay, events.take(i)).spec_expects(events[i])
}

/// What the relay asks for after each of the given events.
pub open spec fn answers<M>(relay: Relay, events: Seq<RelayEvent<M>>) -> Seq<RelayAction<M>> {
    Seq::new(events.len(), |i: int| relay_after(relay, events.take(i)).answer(events[i]))
}

} // verus!
