//! The accept loop of the health listener: how many connections are served at
//! once, and what each event means for the loop.
//!
//! A slot is taken before a connection is accepted, so that at capacity peers
//! wait in the listen backlog. Shutdown is looked at in both waits: a peer that
//! holds every slot cannot delay it.

use vstd::prelude::*;

verus! {

/// Connections served at once.
pub const MAX_CONNECTIONS: usize = 256;

/// How long a peer may take to send its request head, in seconds.
pub const HEADER_READ_TIMEOUT_SECS: u64 = 10;

/// How long connections may take to finish once shutdown begins, in seconds.
pub const DRAIN_TIMEOUT_SECS: u64 = 2;

/// What the loop waits for.
#[derive(Debug, Clone, Copy, PartialEq, Eq, Structural)]
pub enum Waiting {
    /// A free slot.
    Slot,
    /// A peer, with a slot in hand.
    Peer,
}

/// What ended a wait.
#[derive(Debug, Clone, Copy, PartialEq, Eq, Structural)]
pub enum Event {
    SlotTaken,
    /// There will be no more slots.
    SlotsClosed,
    Accepted,
    AcceptFailed,
    Shutdown,
}

/// What the loop does next.
#[derive(Debug, Clone, Copy, PartialEq, Eq, Structural)]
pub enum Action {
    /// Wait for a peer, keeping the slot.
    Accept,
    /// Serve the connection with the slot in hand, then wait for the next slot.
    Serve,
    /// Give the slot back and wait for one again.
    Retry,
    /// Stop accepting and drain what is in flight.
    Stop,
}

/// What an event means for a wait.
pub open spec fn action(waiting: Waiting, event: Event) -> Action {
    match (waiting, event) {
        (_, Event::Shutdown) => Action::Stop,
        (Waiting::Slot, Event::SlotsClosed) => Action::Stop,
        (Waiting::Slot, Event::SlotTaken) => Action::Accept,
        (Waiting::Peer, Event::Accepted) => Action::Serve,
        _ => Action::Retry,
    }
}

/// The next action of the accept loop.
///
/// Shutdown stops it from either wait. One failed accept is not fatal: a peer
/// that vanishes in between produces one. An event that does not belong to a wait
/// sends the loop back for a slot.
pub fn next(waiting: Waiting, event: Event) -> (r: Action)
    ensures
        r == action(waiting, event),
{
    match (waiting, event) {
        (_, Event::Shutdown) => Action::Stop,
        (Waiting::Slot, Event::SlotsClosed) => Action::Stop,
        (Waiting::Slot, Event::SlotTaken) => Action::Accept,
        (Waiting::Peer, Event::Accepted) => Action::Serve,
        _ => Action::Retry,
    }
}

/// What the loop waits for after an action that does not stop it.
pub open spec fn wait_after(action: Action) -> Waiting {
    match action {
        Action::Accept => Waiting::Peer,
        _ => Waiting::Slot,
    }
}

/// How many connections the loop serves as it meets these events in turn.
pub open spec fn served(waiting: Waiting, events: Seq<Event>) -> nat
    decreases events.len(),
{
    if events.len() == 0 {
        0
    } else {
        match action(waiting, events[0]) {
            Action::Stop => 0,
            Action::Serve => 1 + served(Waiting::Slot, events.skip(1)),
            a => served(wait_after(a), events.skip(1)),
        }
    }
}

/// How many slots it takes and does not give back, the one in hand at the start
/// of a wait for a peer included.
pub open spec fn kept(waiting: Waiting, events: Seq<Event>) -> nat
    decreases events.len(),
{
    let in_hand: nat = if waiting == Waiting::Peer {
        1
    } else {
        0
    };
    if events.len() == 0 {
        in_hand
    } else {
        match action(waiting, events[0]) {
            Action::Stop => in_hand,
            Action::Serve => in_hand + kept(Waiting::Slot, events.skip(1)),
            a => kept(wait_after(a), events.skip(1)),
        }
    }
}

/// Every connection served has a slot of its own, whatever the events: as many
/// connections as slots are kept, give or take the one in hand at the end. So no
/// more are ever served at once than there are slots.
pub proof fn law_every_connection_has_a_slot(events: Seq<Event>)
    ensures
        served(Waiting::Slot, events) <= kept(Waiting::Slot, events) <= served(
            Waiting::Slot,
            events,
        ) + 1,
{
    lemma_slots_follow_connections(Waiting::Slot, events);
}

proof fn lemma_slots_follow_connections(waiting: Waiting, events: Seq<Event>)
    ensures
        served(waiting, events) <= kept(waiting, events) <= served(waiting, events) + 1,
    decreases events.len(),
{
    if events.len() > 0 {
        match action(waiting, events[0]) {
            Action::Stop => {}
            a => {
                lemma_slots_follow_connections(wait_after(a), events.skip(1));
            }
        }
    }
}

/// Once shutdown is seen, nothing more is served, whatever the loop was waiting
/// for and whatever comes after.
pub proof fn law_nothing_is_served_after_shutdown(
    waiting: Waiting,
    before: Seq<Event>,
    after: Seq<Event>,
)
    ensures
        served(waiting, before + seq![Event::Shutdown] + after) == served(waiting, before),
    decreases before.len(),
{
    let all = before + seq![Event::Shutdown] + after;
    if before.len() == 0 {
        assert(all[0] == Event::Shutdown);
    } else {
        assert(all[0] == before[0]);
        assert(all.skip(1) =~= before.skip(1) + seq![Event::Shutdown] + after);
        match action(waiting, before[0]) {
            Action::Stop => {}
            a => {
                law_nothing_is_served_after_shutdown(wait_after(a), before.skip(1), after);
            }
        }
    }
}

} // verus!
