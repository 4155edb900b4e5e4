//! What a relay does at each event, whatever came before.
use crate::raw_logs::{RawFrame, RawLog, RawRelay};
use crate::relay::{answers, can_come, relay_after, Inbound, Relay, RelayAction, RelayEvent};
use crate::relay_laws::{raw_after, raw_answers};
use vstd::prelude::*;

verus! {

/// A relay that relays never tells the client that there is nothing to come.
pub proof fn law_relaying_relay_never_refuses<M>(relay: Relay, event: RelayEvent<M>)
    requires
        relay.phase is Waiting || relay.phase is Sending,
        relay.spec_expects(event),
    ensures
        !(relay.answer(event) is SendFinished),
        !(relay.after(event).phase is Refusing),
        relay.answer(event) is Send <==> event is Item,
        relay.after(event).phase is Sending <==> event is Item,
        relay.after(event).phase is Waiting <==> relay.answer(event) is Wait,
{
}

/// A relay waits again once a message has been sent, and it waits on where the client
/// sends anything but a close frame. Whether it closes the connection when it leaves
/// does not matter.
pub proof fn law_relay_waits_on<M>(relay: Relay)
    ensures
        relay.phase is Waiting ==> {
            &&& relay.answer(RelayEvent::<M>::Received(Inbound::Other)) is Wait
            &&& relay.after(RelayEvent::<M>::Received(Inbound::Other)) == relay
        },
        relay.phase is Sending ==> {
            &&& relay.answer(RelayEvent::<M>::Sent(true)) is Wait
            &&& relay.after(RelayEvent::<M>::Sent(true)).phase is Waiting
        },
{
}

/// A relay that waits sends the next message of the stream as it is, and is then in the
/// middle of sending.
pub proof fn law_relay_sends_the_message<M>(relay: Relay, message: M)
    requires
        relay.phase is Waiting,
    ensures
        relay.answer(RelayEvent::Item(message)) == RelayAction::Send(message),
        relay.after(RelayEvent::Item(message)).phase is Sending,
{
}

/// A relay that waits leaves where the stream has failed or ended and where the client
/// closes, ends or fails; one that sends leaves where the message could not be sent. It
/// closes the connection or just stops, as it was made to.
pub proof fn law_relay_leaves<M>(relay: Relay, event: RelayEvent<M>)
    requires
        ({
            ||| relay.phase is Waiting && (event is StreamFailed || event is StreamEnded || event
                == RelayEvent::<M>::Received(Inbound::Close) || event == RelayEvent::<M>::Received(
                Inbound::Ended,
            ) || event == RelayEvent::<M>::Received(Inbound::Failed))
            ||| relay.phase is Sending && event == RelayEvent::<M>::Sent(false)
        }),
    ensures
        relay.closes ==> relay.answer(event) is Close && relay.after(event).phase is Closing,
        !relay.closes ==> relay.answer(event) is Stop && relay.after(event).phase is Over,
{
}

/// A relay that refuses closes the connection, whether or not the client could be told,
/// and a relay that closes stops.
pub proof fn law_refusing_and_closing_relay_go_on<M>(relay: Relay, delivered: bool)
    ensures
        relay.phase is Refusing ==> {
            &&& relay.answer(RelayEvent::<M>::Sent(delivered)) is Close
            &&& relay.after(RelayEvent::<M>::Sent(delivered)).phase is Closing
        },
        relay.phase is Closing ==> {
            &&& relay.answer(RelayEvent::<M>::Closed) is Stop
            &&& relay.after(RelayEvent::<M>::Closed).phase is Over
        },
{
}

/// No event changes whether a relay closes the connection when it leaves.
pub proof fn law_relay_leaves_as_it_was_made_to<M>(relay: Relay, event: RelayEvent<M>)
    ensures
        relay.after(event).closes == relay.closes,
{
}

/// What can come is what the last action asks for: a relay that waits hears of the
/// stream and of the client, one that sends or refuses hears what came of the sending,
/// one that closes hears of that, and one that is done hears nothing.
pub proof fn law_relay_hears_of_its_action<M>(relay: Relay, message: M, inbound: Inbound, ok: bool)
    ensures
        relay.spec_expects(RelayEvent::Item(message)) <==> relay.phase is Waiting,
        relay.spec_expects(RelayEvent::<M>::StreamFailed) <==> relay.phase is Waiting,
        relay.spec_expects(RelayEvent::<M>::StreamEnded) <==> relay.phase is Waiting,
        relay.spec_expects(RelayEvent::<M>::Received(inbound)) <==> relay.phase is Waiting,
        relay.spec_expects(RelayEvent::<M>::Sent(ok)) <==> relay.phase is Sending || relay.phase
            is Refusing,
        relay.spec_expects(RelayEvent::<M>::Closed) <==> relay.phase is Closing,
{
}

/// A message that stands between others in the stream is sent at once, and once it is
/// sent the relay is where it was.
pub proof fn law_sent_message_leaves_no_trace<M>(relay: Relay, message: M)
    requires
        relay.phase is Waiting,
    ensures
        relay.after(RelayEvent::Item(message)).spec_expects(RelayEvent::<M>::Sent(true)),
        relay.after(RelayEvent::Item(message)).after(RelayEvent::<M>::Sent(true)) == relay,
{
}

/// A run is the run of its first events and then that of the others.
pub proof fn law_run_goes_on<M>(relay: Relay, events: Seq<RelayEvent<M>>, event: RelayEvent<M>)
    ensures
        relay_after(relay, Seq::<RelayEvent<M>>::empty()) == relay,
        relay_after(relay, events.push(event)) == relay_after(relay, events).after(event),
        answers(relay, events).len() == events.len(),
        answers(relay, events.push(event)) == answers(relay, events).push(
            relay_after(relay, events).answer(event),
        ),
        can_come(relay, Seq::<RelayEvent<M>>::empty()),
        can_come(relay, events.push(event)) <==> can_come(relay, events) && relay_after(
            relay,
            events,
        ).spec_expects(event),
{
    let more = events.push(event);
    assert(more.drop_last() =~= events);
    assert(more.take(events.len() as int) =~= events);
    assert forall|i: int| 0 <= i < events.len() implies #[trigger] more.take(i) == events.take(
        i,
    ) by {
        assert(more.take(i) =~= events.take(i));
    }
    assert(answers(relay, more) =~= answers(relay, events).push(
        relay_after(relay, events).answer(event),
    ));
    if can_come(relay, more) {
        assert(more[events.len() as int] == event);
        assert forall|i: int| 0 <= i < events.len() implies relay_after(
            relay,
            events.take(i),
        ).spec_expects(#[trigger] events[i]) by {
            assert(more[i] == events[i]);
            assert(more.take(i) == events.take(i));
        }
    }
    if can_come(relay, events) && relay_after(relay, events).spec_expects(event) {
        assert forall|i: int| 0 <= i < more.len() implies relay_after(
            relay,
            more.take(i),
        ).spec_expects(#[trigger] more[i]) by {
            if i < events.len() {
                assert(more[i] == events[i]);
                assert(more.take(i) == events.take(i));
            }
        }
    }
}

/// The relay of raw logs sends an entry with what the process wrote, at the next index,
/// and the index behind it is next then. Behind the greatest index it starts over.
pub proof fn law_raw_relay_numbers_what_is_written(relay: RawRelay, content: String)
    ensures
        relay.answer(RelayEvent::Item(RawLog::Stdout(content))) == RelayAction::Send(
            RawFrame::AddStdout { index: relay.next_index, content },
        ),
        relay.answer(RelayEvent::Item(RawLog::Stderr(content))) == RelayAction::Send(
            RawFrame::AddStderr { index: relay.next_index, content },
        ),
        relay.next_index < usize::MAX ==> {
            &&& relay.after(RelayEvent::Item(RawLog::Stdout(content))).next_index
                == relay.next_index + 1
            &&& relay.after(RelayEvent::Item(RawLog::Stderr(content))).next_index
                == relay.next_index + 1
        },
        relay.next_index == usize::MAX ==> {
            &&& relay.after(RelayEvent::Item(RawLog::Stdout(content))).next_index == 0
            &&& relay.after(RelayEvent::Item(RawLog::Stderr(content))).next_index == 0
        },
{
}

/// The end of the process is told without an index, and nothing but an entry uses an
/// index up.
pub proof fn law_raw_relay_numbers_nothing_else(relay: RawRelay, event: RelayEvent<RawLog>)
    ensures
        relay.answer(RelayEvent::Item(RawLog::Finished)) == RelayAction::Send(RawFrame::Finished),
        event == RelayEvent::Item(RawLog::Finished) || !(event is Item) ==> relay.after(
            event,
        ).next_index == relay.next_index,
{
}

/// The relay of raw logs is in the middle of what any relay would be, and asks for what
/// any relay would where the stream has no message.
pub proof fn law_raw_relay_steps_as_relay(relay: RawRelay, event: RelayEvent<RawLog>)
    ensures
        relay.after(event).relay == relay.relay.after(event),
        !(relay.answer(event) is SendFinished),
        relay.answer(event) is Send <==> event is Item,
        !(event is Item) ==> {
            &&& relay.answer(event) is Wait <==> relay.relay.after(event).phase is Waiting
            &&& relay.answer(event) is Close <==> relay.relay.after(event).phase is Closing
            &&& relay.answer(event) is Stop <==> relay.relay.after(event).phase is Over
        },
{
}

/// A run of the relay of raw logs is the run of its first events and then that of the
/// others.
pub proof fn law_raw_run_goes_on(
    relay: RawRelay,
    events: Seq<RelayEvent<RawLog>>,
    event: RelayEvent<RawLog>,
)
    ensures
        raw_after(relay, Seq::<RelayEvent<RawLog>>::empty()) == relay,
        raw_after(relay, events.push(event)) == raw_after(relay, events).after(event),
        raw_answers(relay, events).len() == events.len(),
        raw_answers(relay, events.push(event)) == raw_answers(relay, events).push(
            raw_after(relay, events).answer(event),
        ),
{
    let more = events.push(event);
    assert(more.drop_last() =~= events);
    assert(more.take(events.len() as int) =~= events);
    assert forall|i: int| 0 <= i < events.len() implies #[trigger] more.take(i) == events.take(
        i,
    ) by {
        assert(more.take(i) =~= events.take(i));
    }
    assert(raw_answers(relay, more) =~= raw_answers(relay, events).push(
        raw_after(relay, events).answer(event),
    ));
}

} // verus!
