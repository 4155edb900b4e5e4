//! What holds of every run of a relay.
use crate::raw_logs::{frame_at, index_after, RawFrame, RawLog, RawRelay};
use crate::relay::{answers, can_come, relay_after, Relay, RelayAction, RelayEvent};
use vstd::prelude::*;

verus! {

/// The messages that a stream has, in their order.
pub open spec fn items<M>(events: Seq<RelayEvent<M>>) -> Seq<M>
    decreases events.len(),
{
    if events.len() == 0 {
        Seq::empty()
    } else {
        match events.last() {
            RelayEvent::Item(message) => items(events.drop_last()).push(message),
            _ => items(events.drop_last()),
        }
    }
}

/// The messages that are sent, in their order.
pub open spec fn sent<M>(actions: Seq<RelayAction<M>>) -> Seq<M>
    decreases actions.len(),
{
    if actions.len() == 0 {
        Seq::empty()
    } else {
        match actions.last() {
            RelayAction::Send(message) => sent(actions.drop_last()).push(message),
            _ => sent(actions.drop_last()),
        }
    }
}

proof fn lemma_shorter_run<M>(relay: Relay, events: Seq<RelayEvent<M>>)
    requires
        events.len() > 0,
    ensures
        answers(relay, events).drop_last() == answers(relay, events.drop_last()),
        answers(relay, events).last() == relay_after(relay, events.drop_last()).answer(
            events.last(),
        ),
{
    let earlier = events.drop_last();
    assert(events.take(events.len() - 1) =~= earlier);
    assert forall|i: int| 0 <= i < earlier.len() implies answers(relay, events)[i] == answers(
        relay,
        earlier,
    )[i] by {
        assert(events.take(i) =~= earlier.take(i));
    }
    assert(answers(relay, events).drop_last() =~= answers(relay, earlier));
}

proof fn lemma_can_come_shorter<M>(relay: Relay, events: Seq<RelayEvent<M>>, count: int)
    requires
        can_come(relay, events),
        0 <= count <= events.len(),
    ensures
        can_come(relay, events.take(count)),
{
    let earlier = events.take(count);
    assert forall|i: int| 0 <= i < earlier.len() implies relay_after(
        relay,
        earlier.take(i),
    ).spec_expects(#[trigger] earlier[i]) by {
        assert(events[i] == earlier[i]);
        assert(events.take(i) =~= earlier.take(i));
    }
}

/// Every message of the stream is sent as it is, in its order, and nothing else is.
pub proof fn law_messages_are_sent_in_order<M>(relay: Relay, events: Seq<RelayEvent<M>>)
    requires
        can_come(relay, events),
    ensures
        sent(answers(relay, events)) == items(events),
    decreases events.len(),
{
    if events.len() > 0 {
        let earlier = events.drop_last();
        lemma_shorter_run(relay, events);
        lemma_can_come_shorter(relay, events, events.len() - 1);
        assert(events.take(events.len() - 1) =~= earlier);
        law_messages_are_sent_in_order(relay, earlier);
    }
}

proof fn lemma_phase_behind<M>(relay: Relay, events: Seq<RelayEvent<M>>, at: int)
    requires
        0 <= at < events.len(),
    ensures
        relay_after(relay, events.take(at + 1)) == relay_after(relay, events.take(at)).after(
            events[at],
        ),
{
    assert(events.take(at + 1).drop_last() =~= events.take(at));
}

/// Behind the action to stop nothing comes.
pub proof fn law_stop_is_the_end<M>(relay: Relay, events: Seq<RelayEvent<M>>, at: int)
    requires
        can_come(relay, events),
        0 <= at < events.len(),
        answers(relay, events)[at] is Stop,
    ensures
        at == events.len() - 1,
{
    lemma_phase_behind(relay, events, at);
    if at + 1 < events.len() {
        assert(relay_after(relay, events.take(at + 1)).spec_expects(events[at + 1]));
    }
}

/// Behind a close frame only the action to stop comes: nothing is sent any more.
pub proof fn law_close_is_the_last_frame<M>(relay: Relay, events: Seq<RelayEvent<M>>, at: int)
    requires
        can_come(relay, events),
        0 <= at < events.len(),
        answers(relay, events)[at] is Close,
    ensures
        events.len() <= at + 2,
        at + 1 < events.len() ==> answers(relay, events)[at + 1] is Stop,
{
    lemma_phase_behind(relay, events, at);
    if at + 1 < events.len() {
        assert(relay_after(relay, events.take(at + 1)).spec_expects(events[at + 1]));
        law_stop_is_the_end(relay, events, at + 1);
    }
}

proof fn lemma_closes_stays<M>(relay: Relay, events: Seq<RelayEvent<M>>)
    ensures
        relay_after(relay, events).closes == relay.closes,
    decreases events.len(),
{
    if events.len() > 0 {
        lemma_closes_stays(relay, events.drop_last());
    }
}

/// A relay that closes the connection when it leaves sends a close frame before it
/// stops, whatever made it leave.
pub proof fn law_closing_relay_closes<M>(relay: Relay, events: Seq<RelayEvent<M>>, at: int)
    requires
        relay.closes,
        !(relay.phase is Closing),
        can_come(relay, events),
        0 <= at < events.len(),
        answers(relay, events)[at] is Stop,
    ensures
        at > 0,
        answers(relay, events)[at - 1] is Close,
{
    lemma_closes_stays(relay, events.take(at));
    assert(relay_after(relay, events.take(at)).spec_expects(events[at]));
    assert(relay_after(relay, events.take(at)).phase is Closing);
    if at == 0 {
        assert(relay_after(relay, events.take(0)) == relay);
    } else {
        lemma_phase_behind(relay, events, at - 1);
        assert(relay_after(relay, events.take(at - 1)).spec_expects(events[at - 1]));
    }
}

proof fn lemma_never_closing<M>(relay: Relay, events: Seq<RelayEvent<M>>)
    requires
        !relay.closes,
        relay.phase is Waiting,
        can_come(relay, events),
    ensures
        !(relay_after(relay, events).phase is Closing),
        !(relay_after(relay, events).phase is Refusing),
    decreases events.len(),
{
    if events.len() > 0 {
        let earlier = events.drop_last();
        let last = events.len() - 1;
        assert(events.take(last) =~= earlier);
        lemma_can_come_shorter(relay, events, last);
        lemma_never_closing(relay, earlier);
        lemma_closes_stays(relay, earlier);
        assert(relay_after(relay, events.take(last)).spec_expects(events[last]));
    }
}

/// A relay that leaves the connection without closing it never sends a close frame.
pub proof fn law_other_relay_never_closes<M>(relay: Relay, events: Seq<RelayEvent<M>>, at: int)
    requires
        !relay.closes,
        relay.phase is Waiting,
        can_come(relay, events),
        0 <= at < events.len(),
    ensures
        !(answers(relay, events)[at] is Close),
{
    lemma_can_come_shorter(relay, events, at + 1);
    lemma_never_closing(relay, events.take(at + 1));
    lemma_phase_behind(relay, events, at);
}

/// Whether an event is a reason for a relay to leave: the stream or the client is
/// done, or has failed.
pub open spec fn is_reason_to_leave<M>(event: RelayEvent<M>) -> bool {
    match event {
        RelayEvent::Item(_) => false,
        RelayEvent::StreamFailed => true,
        RelayEvent::StreamEnded => true,
        RelayEvent::Received(inbound) => !(inbound is Other),
        RelayEvent::Sent(delivered) => !delivered,
        RelayEvent::Closed => true,
    }
}

/// A relay that relays leaves for a reason only, and at once.
pub proof fn law_relay_leaves_for_a_reason<M>(relay: Relay, event: RelayEvent<M>)
    requires
        relay.phase is Waiting || relay.phase is Sending,
        relay.spec_expects(event),
    ensures
        is_reason_to_leave(event) <==> relay.answer(event) is Close || relay.answer(event) is Stop,
        is_reason_to_leave(event) ==> (relay.answer(event) is Close <==> relay.closes),
{
}

/// Where there is no stream, the client is sent a close frame behind the message that
/// there is nothing to come, even where that message could not be sent, and nothing
/// else.
pub proof fn law_refused_client_gets_close<M>(relay: Relay, events: Seq<RelayEvent<M>>)
    requires
        relay.phase is Refusing,
        can_come(relay, events),
    ensures
        events.len() <= 2,
        events.len() >= 1 ==> answers(relay, events)[0] is Close,
        events.len() == 2 ==> answers(relay, events)[1] is Stop,
        sent(answers(relay, events)).len() == 0,
{
    if events.len() > 0 {
        assert(relay_after(relay, events.take(0)) == relay);
        assert(relay.spec_expects(events[0]));
        assert(answers(relay, events)[0] is Close);
        law_close_is_the_last_frame(relay, events, 0);
    }
    reveal_with_fuel(sent, 3);
}

/// The relay of raw logs after the given events.
pub open spec fn raw_after(relay: RawRelay, events: Seq<RelayEvent<RawLog>>) -> RawRelay
    decreases events.len(),
{
    if events.len() == 0 {
        relay
    } else {
        raw_after(relay, events.drop_last()).after(events.last())
    }
}

/// What the relay of raw logs asks for after each of the given events.
pub open spec fn raw_answers(
    relay: RawRelay,
    events: Seq<RelayEvent<RawLog>>,
) -> Seq<RelayAction<RawFrame>> {
    Seq::new(events.len(), |i: int| raw_after(relay, events.take(i)).answer(events[i]))
}

proof fn lemma_raw_state(relay: RawRelay, events: Seq<RelayEvent<RawLog>>)
    ensures
        raw_after(relay, events).relay == relay_after(relay.relay, events),
    decreases events.len(),
{
    if events.len() > 0 {
        lemma_raw_state(relay, events.drop_last());
    }
}

/// But for the numbers, the relay of raw logs acts as any relay does: it waits, sends,
/// closes and stops at the same events.
pub proof fn law_raw_relay_acts_as_relay(
    relay: RawRelay,
    events: Seq<RelayEvent<RawLog>>,
    at: int,
)
    requires
        0 <= at < events.len(),
    ensures
        raw_answers(relay, events)[at] is Wait <==> answers(relay.relay, events)[at] is Wait,
        raw_answers(relay, events)[at] is Send <==> answers(relay.relay, events)[at] is Send,
        raw_answers(relay, events)[at] is Close <==> answers(relay.relay, events)[at] is Close,
        raw_answers(relay, events)[at] is Stop <==> answers(relay.relay, events)[at] is Stop,
{
    lemma_raw_state(relay, events.take(at));
}

/// How many entries the messages of a stream of raw logs make.
pub open spec fn entries(logs: Seq<RawLog>) -> nat
    decreases logs.len(),
{
    if logs.len() == 0 {
        0
    } else if logs.last() is Finished {
        entries(logs.drop_last())
    } else {
        entries(logs.drop_last()) + 1
    }
}

/// The index of the entry that `count` entries come before: `count`, as far as an
/// index reaches.
pub open spec fn entry_index(count: nat) -> usize {
    (count % (usize::MAX as nat + 1)) as usize
}

/// The frames for the messages of a stream of raw logs. The entries are numbered from
/// zero, in their order.
pub open spec fn numbered(logs: Seq<RawLog>) -> Seq<RawFrame> {
    Seq::new(logs.len(), |i: int| frame_at(logs[i], entry_index(entries(logs.take(i)))))
}

proof fn lemma_next_entry(count: nat)
    ensures
        index_after(entry_index(count)) == entry_index(count + 1),
{
    let size = usize::MAX as nat + 1;
    let quotient = count / size;
    let rest = count % size;
    assert(count == quotient * size + rest) by {
        vstd::arithmetic::div_mod::lemma_fundamental_div_mod(count as int, size as int);
        vstd::arithmetic::mul::lemma_mul_is_commutative(quotient as int, size as int);
    }
    if rest == usize::MAX {
        assert(count + 1 == (quotient + 1) * size) by (nonlinear_arith)
            requires
                count == quotient * size + rest,
                rest + 1 == size,
        ;
        vstd::arithmetic::div_mod::lemma_mod_multiples_basic(quotient as int + 1, size as int);
    } else {
        assert(count + 1 == quotient * size + (rest + 1));
        vstd::arithmetic::div_mod::lemma_mod_multiples_vanish(
            quotient as int,
            rest as int + 1,
            size as int,
        );
        vstd::arithmetic::mul::lemma_mul_is_commutative(quotient as int, size as int);
        vstd::arithmetic::div_mod::lemma_small_mod((rest + 1) as nat, size);
    }
}

proof fn lemma_numbered_grows(logs: Seq<RawLog>, log: RawLog)
    ensures
        numbered(logs.push(log)) == numbered(logs).push(
            frame_at(log, entry_index(entries(logs))),
        ),
{
    let more = logs.push(log);
    assert forall|i: int| 0 <= i < logs.len() implies numbered(more)[i] == numbered(logs)[i] by {
        assert(more.take(i) =~= logs.take(i));
    }
    assert(more.take(logs.len() as int) =~= logs);
    assert(numbered(more) =~= numbered(logs).push(frame_at(log, entry_index(entries(logs)))));
}

/// The client of raw logs is sent a frame for every message of the stream, in its
/// order, with the entries numbered from zero, and nothing else.
pub proof fn law_raw_entries_are_numbered(relay: RawRelay, events: Seq<RelayEvent<RawLog>>)
    requires
        relay.next_index == 0,
        can_come(relay.relay, events),
    ensures
        sent(raw_answers(relay, events)) == numbered(items(events)),
        raw_after(relay, events).next_index == entry_index(entries(items(events))),
    decreases events.len(),
{
    if events.len() == 0 {
        vstd::arithmetic::div_mod::lemma_small_mod(0, usize::MAX as nat + 1);
        assert(numbered(items(events)) =~= Seq::<RawFrame>::empty());
    } else {
        let earlier = events.drop_last();
        let event = events.last();
        lemma_can_come_shorter(relay.relay, events, events.len() - 1);
        assert(events.take(events.len() - 1) =~= earlier);
        law_raw_entries_are_numbered(relay, earlier);
        assert forall|i: int| 0 <= i < earlier.len() implies raw_answers(relay, events)[i]
            == raw_answers(relay, earlier)[i] by {
            assert(events.take(i) =~= earlier.take(i));
        }
        assert(raw_answers(relay, events).drop_last() =~= raw_answers(relay, earlier));
        match event {
            RelayEvent::Item(log) => {
                let logs = items(earlier);
                lemma_numbered_grows(logs, log);
                lemma_next_entry(entries(logs));
                assert(logs.push(log).drop_last() =~= logs);
            },
            _ => {},
        }
    }
}

} // verus!
