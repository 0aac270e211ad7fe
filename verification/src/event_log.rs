//! The event log: an append-only, totally ordered record of domain events.
//!
//! The log numbers its events 1, 2, 3, ... in the order in which they were
//! appended. A consumer names the last sequence it has seen and is handed
//! the events that follow it; reading changes nothing.

use crate::error::Error;
use crate::persistence::{has_room, Transaction};
use crate::service::auction_house;
use crate::service::bidding_engine;
use vstd::prelude::*;

verus! {

/// What the log records: one family of events per producing component. The
/// log itself never looks inside.
#[derive(Debug, PartialEq, Eq)]
pub enum DomainEvent {
    /// Reported by the auction house.
    AuctionHouse(auction_house::Event),
    /// Decided by the bidding engine.
    BiddingEngine(bidding_engine::Event),
}

/// A domain event at its place in the log.
#[derive(Debug, PartialEq, Eq)]
pub struct Event {
    /// The position the log gave the event when it was appended.
    pub sequence: u64,
    pub payload: DomainEvent,
}

impl Clone for DomainEvent {
    fn clone(&self) -> (copy: Self)
        ensures
            copy == *self,
    {
        match self {
            DomainEvent::AuctionHouse(event) => DomainEvent::AuctionHouse(event.clone()),
            DomainEvent::BiddingEngine(event) => DomainEvent::BiddingEngine(event.clone()),
        }
    }
}

impl Clone for Event {
    fn clone(&self) -> (copy: Self)
        ensures
            copy == *self,
    {
        Event { sequence: self.sequence, payload: self.payload.clone() }
    }
}

/// A log is sequenced when the event at index `i` carries sequence `i + 1`.
pub open spec fn sequenced(log: Seq<Event>) -> bool {
    forall|i: int| 0 <= i < log.len() ==> (#[trigger] log[i]).sequence == i + 1
}

/// The payloads as the events they become when appended, in their order, to
/// a log that holds `length` events.
pub open spec fn numbered(payloads: Seq<DomainEvent>, length: nat) -> Seq<Event> {
    Seq::new(
        payloads.len(),
        |i: int| Event { sequence: (length + i + 1) as u64, payload: payloads[i] },
    )
}

/// Whether an event lies behind `sequence` in the log.
pub open spec fn later_than(sequence: u64) -> spec_fn(Event) -> bool {
    |event: Event| event.sequence > sequence
}

/// What a consumer that has seen everything up to `sequence` reads next:
/// of the events with a greater sequence, in the order of the log, the first
/// `max`, or all of them if they are fewer.
pub open spec fn events_after(log: Seq<Event>, sequence: u64, max: nat) -> Seq<Event> {
    let later = log.filter(later_than(sequence));
    if max <= later.len() {
        later.take(max as int)
    } else {
        later
    }
}

/// In a sequenced log the events with a sequence greater than `sequence`
/// are those from index `sequence` on.
proof fn later_events_are_a_suffix(log: Seq<Event>, sequence: u64)
    requires
        sequenced(log),
    ensures
        log.filter(later_than(sequence)) == log.subrange(
            if sequence <= log.len() {
                sequence as int
            } else {
                log.len() as int
            },
            log.len() as int,
        ),
    decreases log.len(),
{
    if log.len() == 0 {
        reveal(Seq::filter);
    } else {
        let front = log.drop_last();
        later_events_are_a_suffix(front, sequence);
        assert(front.push(log.last()) =~= log);
        front.lemma_filter_push(log.last(), later_than(sequence));
    }
}

/// In a sequenced log a read is a range of the log: it starts behind the
/// event with the named sequence, or at the end of the log if there is no
/// such event, and holds the `max` events from there on, or all that are
/// left.
pub proof fn read_is_a_range(log: Seq<Event>, sequence: u64, max: nat)
    requires
        sequenced(log),
    ensures
        events_after(log, sequence, max) == log.subrange(
            if sequence <= log.len() {
                sequence as int
            } else {
                log.len() as int
            },
            if sequence <= log.len() && sequence + max <= log.len() {
                sequence + max
            } else {
                log.len() as int
            },
        ),
{
    later_events_are_a_suffix(log, sequence);
}

/// The sequence of the last event of `log`, 0 for the empty log.
pub open spec fn last_sequence(log: Seq<Event>) -> u64 {
    if log.len() == 0 {
        0
    } else {
        log.last().sequence
    }
}

/// A read returns events in strictly increasing sequence order, each later
/// than the sequence the reader named, and never more than it asked for.
pub proof fn read_is_ordered(log: Seq<Event>, sequence: u64, max: nat)
    requires
        sequenced(log),
    ensures
        events_after(log, sequence, max).len() <= max,
        forall|i: int|
            0 <= i < events_after(log, sequence, max).len() ==> (#[trigger] events_after(
                log,
                sequence,
                max,
            )[i]).sequence > sequence,
        forall|i: int, j: int|
            0 <= i < j < events_after(log, sequence, max).len() ==> (#[trigger] events_after(
                log,
                sequence,
                max,
            )[i]).sequence < (#[trigger] events_after(log, sequence, max)[j]).sequence,
{
    read_is_a_range(log, sequence, max);
}

/// A read skips nothing: it starts with the event right after the named
/// sequence and goes on without a gap, and it stops short of `max` events
/// only at the end of the log.
pub proof fn read_is_gapless(log: Seq<Event>, sequence: u64, max: nat)
    requires
        sequenced(log),
    ensures
        forall|i: int|
            0 <= i < events_after(log, sequence, max).len() ==> (#[trigger] events_after(
                log,
                sequence,
                max,
            )[i]).sequence == sequence + i + 1,
        events_after(log, sequence, max).len() < max ==> forall|k: int|
            0 <= k < log.len() ==> (#[trigger] log[k]).sequence <= sequence + events_after(
                log,
                sequence,
                max,
            ).len(),
{
    read_is_a_range(log, sequence, max);
}

/// Appending takes nothing back: what a consumer read after a sequence is
/// how its read after the same sequence begins once the log has grown.
pub proof fn read_sees_appends_only(log: Seq<Event>, more: Seq<Event>, sequence: u64, max: nat)
    requires
        sequenced(log),
        sequenced(log + more),
    ensures
        events_after(log, sequence, max).is_prefix_of(events_after(log + more, sequence, max)),
{
    read_is_a_range(log, sequence, max);
    read_is_a_range(log + more, sequence, max);
}

/// The events of a store, in the order of their appending.
pub struct EventLog {
    events: Vec<Event>,
}

impl EventLog {
    /// The events from the oldest to the newest.
    pub closed spec fn view(&self) -> Seq<Event> {
        self.events@
    }

    #[verifier::type_invariant]
    spec fn well_formed(&self) -> bool {
        sequenced(self.events@) && self.events@.len() <= u64::MAX
    }

    /// The empty log.
    pub fn new() -> (log: Self)
        ensures
            log@ == Seq::<Event>::empty(),
    {
        EventLog { events: Vec::new() }
    }

    /// The number of events, which is also the sequence of the newest: every
    /// log numbers its events from 1 without a gap.
    pub fn len(&self) -> (n: u64)
        ensures
            n == self@.len(),
            n == last_sequence(self@),
            sequenced(self@),
    {
        proof {
            use_type_invariant(self);
        }
        self.events.len() as u64
    }

    /// Returns up to `max` events with a sequence greater than `sequence`,
    /// in ascending order of sequence; none when there is none.
    pub fn read_after(&self, sequence: u64, max: usize) -> (events: Vec<Event>)
        ensures
            events@ == events_after(self@, sequence, max as nat),
            events@.len() <= max,
            forall|i: int| 0 <= i < events@.len() ==> (#[trigger] events@[i]).sequence > sequence,
            forall|i: int, j: int|
                0 <= i < j < events@.len() ==> (#[trigger] events@[i]).sequence < (
                #[trigger] events@[j]).sequence,
    {
        proof {
            use_type_invariant(self);
            read_is_a_range(self@, sequence, max as nat);
            read_is_ordered(self@, sequence, max as nat);
        }
        let len = self.events.len();
        let mut events: Vec<Event> = Vec::new();
        if sequence >= len as u64 {
            return events;
        }
        let start: usize = sequence as usize;
        let rest: usize = len - start;
        let count: usize = if max <= rest {
            max
        } else {
            rest
        };
        let end: usize = start + count;
        let mut i: usize = start;
        while i < end
            invariant
                start <= i <= end <= self.events@.len(),
                events@ == self.events@.subrange(start as int, i as int),
            decreases end - i,
        {
            events.push(self.events[i].clone());
            i += 1;
        }
        events
    }

    /// Appends the payloads in their order, giving each the next sequence.
    pub(crate) fn append(&mut self, payloads: &Vec<DomainEvent>)
        requires
            old(self)@.len() + payloads@.len() <= u64::MAX,
        ensures
            final(self)@ == old(self)@ + numbered(payloads@, old(self)@.len()),
    {
        proof {
            use_type_invariant(&*self);
        }
        let mut events: Vec<Event> = Vec::new();
        core::mem::swap(&mut events, &mut self.events);
        let ghost before = events@;
        let mut i: usize = 0;
        while i < payloads.len()
            invariant
                i <= payloads@.len(),
                before.len() + payloads@.len() <= u64::MAX,
                sequenced(before),
                events@ == before + numbered(payloads@, before.len()).subrange(0, i as int),
            decreases payloads.len() - i,
        {
            let sequence: u64 = events.len() as u64 + 1;
            events.push(Event { sequence, payload: payloads[i].clone() });
            i += 1;
        }
        self.events = events;
    }
}

/// Writes `events` to the log through `transaction`, in their order. The
/// log takes all of them or, with [`Error::AppendFailed`], none: that
/// happens when it has no sequences left for them. What was written shows
/// in the log once the transaction has committed, numbered on from the
/// events that were there and those written before through the same
/// transaction.
pub fn write<'a, T: Transaction<'a>>(transaction: &mut T, events: &[DomainEvent]) -> (written:
    Result<(), Error>)
    ensures
        final(transaction).durable() == old(transaction).durable(),
        final(transaction).staged_cursors() == old(transaction).staged_cursors(),
        has_room(*old(transaction), events@.len()) ==> written is Ok
            && final(transaction).staged_events() == old(transaction).staged_events() + events@,
        !has_room(*old(transaction), events@.len()) ==> written == Err::<(), Error>(
            Error::AppendFailed,
        ) && final(transaction).staged_events() == old(transaction).staged_events(),
{
    let room = transaction.room();
    if events.len() as u64 > room {
        return Err(Error::AppendFailed);
    }
    transaction.stage_events(events);
    Ok(())
}

} // verus!
