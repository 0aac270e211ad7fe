//! The progress store: for each named consumer, the sequence of the last
//! event whose effects it has committed.

use crate::error::Error;
use crate::event_log::DomainEvent;
use crate::persistence::{admits, after_commit, StoreState, Transaction};
use vstd::prelude::*;

verus! {

/// How far a consumer has come in the event log.
#[derive(Debug, PartialEq, Eq)]
pub struct ProgressCursor {
    pub consumer_id: String,
    pub last_applied_sequence: u64,
}

/// The cursor of `consumer_id` among `cursors`, if it has one.
pub open spec fn cursor_of(cursors: Map<Seq<char>, u64>, consumer_id: Seq<char>) -> Option<u64> {
    if cursors.dom().contains(consumer_id) {
        Some(cursors[consumer_id])
    } else {
        None
    }
}

/// A cursor that was advanced in a transaction is where it was advanced to
/// once the transaction has committed, whatever else the transaction wrote,
/// and every other consumer that had a cursor finds it where it was.
pub proof fn advance_shows_with_the_commit(
    base: StoreState,
    events: Seq<DomainEvent>,
    cursors: Map<Seq<char>, u64>,
    consumer_id: Seq<char>,
    sequence: u64,
)
    ensures
        cursor_of(
            after_commit(base, events, cursors.insert(consumer_id, sequence)).cursors,
            consumer_id,
        ) == Some(sequence),
        forall|other: Seq<char>|
            other != consumer_id && !cursors.dom().contains(other) ==> #[trigger] cursor_of(
                after_commit(base, events, cursors.insert(consumer_id, sequence)).cursors,
                other,
            ) == cursor_of(base.cursors, other),
{
}

/// One cursor per consumer that has ever advanced.
pub struct ProgressStore {
    cursors: Vec<ProgressCursor>,
    positions: Ghost<Map<Seq<char>, u64>>,
}

impl ProgressStore {
    /// The last applied sequence of each consumer that has one.
    pub closed spec fn view(&self) -> Map<Seq<char>, u64> {
        self.positions@
    }

    #[verifier::type_invariant]
    spec fn well_formed(&self) -> bool {
        &&& forall|i: int|
            0 <= i < self.cursors@.len() ==> self.positions@.contains_pair(
                (#[trigger] self.cursors@[i]).consumer_id@,
                self.cursors@[i].last_applied_sequence,
            )
        &&& forall|id: Seq<char>|
            self.positions@.dom().contains(id) ==> exists|i: int|
                0 <= i < self.cursors@.len() && (#[trigger] self.cursors@[i]).consumer_id@ == id
        &&& forall|i: int, j: int|
            0 <= i < j < self.cursors@.len() ==> (#[trigger] self.cursors@[i]).consumer_id@ != (
            #[trigger] self.cursors@[j]).consumer_id@
    }

    /// A store in which no consumer has advanced yet.
    pub fn new() -> (store: Self)
        ensures
            store@ == Map::<Seq<char>, u64>::empty(),
    {
        ProgressStore { cursors: Vec::new(), positions: Ghost(Map::empty()) }
    }

    /// Where the cursor of `consumer_id` is kept, if it has one.
    fn find(&self, consumer_id: &String) -> (found: Option<usize>)
        ensures
            match found {
                Some(i) => i < self.cursors@.len() && self.cursors@[i as int].consumer_id@
                    == consumer_id@ && self@.contains_pair(
                    consumer_id@,
                    self.cursors@[i as int].last_applied_sequence,
                ),
                None => !self@.dom().contains(consumer_id@),
            },
    {
        proof {
            use_type_invariant(self);
        }
        let mut i: usize = 0;
        while i < self.cursors.len()
            invariant
                i <= self.cursors@.len(),
                self.well_formed(),
                forall|j: int| 0 <= j < i ==> (#[trigger] self.cursors@[j]).consumer_id@ != consumer_id@,
            decreases self.cursors.len() - i,
        {
            if self.cursors[i].consumer_id == *consumer_id {
                return Some(i);
            }
            i += 1;
        }
        None
    }

    /// The last applied sequence of `consumer_id`, or `None` if it has
    /// never advanced and so starts at the beginning of the log.
    pub fn get_progress(&self, consumer_id: &str) -> (progress: Option<u64>)
        ensures
            progress == cursor_of(self@, consumer_id@),
    {
        let key = consumer_id.to_owned();
        match self.find(&key) {
            Some(i) => Some(self.cursors[i].last_applied_sequence),
            None => None,
        }
    }

    /// Puts the cursor of `consumer_id` at `sequence`.
    pub(crate) fn record(&mut self, consumer_id: &str, sequence: u64)
        ensures
            final(self)@ == old(self)@.insert(consumer_id@, sequence),
    {
        let key = consumer_id.to_owned();
        let found = self.find(&key);
        proof {
            use_type_invariant(&*self);
        }
        let mut taken = ProgressStore::new();
        core::mem::swap(self, &mut taken);
        let ProgressStore { cursors, positions } = taken;
        let mut cursors = cursors;
        let cursor = ProgressCursor { consumer_id: key, last_applied_sequence: sequence };
        match found {
            Some(i) => {
                cursors.set(i, cursor);
            },
            None => {
                cursors.push(cursor);
            },
        }
        let ghost updated = positions@.insert(consumer_id@, sequence);
        assert forall|id: Seq<char>| updated.dom().contains(id) implies exists|i: int|
            0 <= i < cursors@.len() && (#[trigger] cursors@[i]).consumer_id@ == id by {
            if id == consumer_id@ {
                let at = match found {
                    Some(i) => i as int,
                    None => cursors@.len() - 1,
                };
                assert(cursors@[at].consumer_id@ == id);
            } else {
                let i = choose|i: int|
                    0 <= i < old(self).cursors@.len() && (#[trigger] old(self).cursors@[i]).consumer_id@ == id;
                assert(cursors@[i].consumer_id@ == id);
            }
        }
        proof {
            let next = ProgressStore { cursors, positions: Ghost(updated) };
            assert(next.cursors@ == cursors@ && next.positions@ == updated);
        }
        *self = ProgressStore { cursors, positions: Ghost(updated) };
    }

    /// Takes over every cursor of `staged`, and keeps the others.
    pub(crate) fn merge(&mut self, staged: &ProgressStore)
        ensures
            final(self)@ == old(self)@.union_prefer_right(staged@),
    {
        proof {
            use_type_invariant(staged);
        }
        let mut i: usize = 0;
        while i < staged.cursors.len()
            invariant
                i <= staged.cursors@.len(),
                staged.well_formed(),
                forall|id: Seq<char>|
                    self@.dom().contains(id) <==> old(self)@.dom().contains(id) || exists|j: int|
                        0 <= j < i && (#[trigger] staged.cursors@[j]).consumer_id@ == id,
                forall|j: int|
                    0 <= j < i ==> self@.contains_pair(
                        (#[trigger] staged.cursors@[j]).consumer_id@,
                        staged.cursors@[j].last_applied_sequence,
                    ),
                forall|id: Seq<char>|
                    old(self)@.dom().contains(id) && !(exists|j: int|
                        0 <= j < i && (#[trigger] staged.cursors@[j]).consumer_id@ == id)
                        ==> self@[id] == old(self)@[id],
            decreases staged.cursors.len() - i,
        {
            let cursor = &staged.cursors[i];
            self.record(cursor.consumer_id.as_str(), cursor.last_applied_sequence);
            i += 1;
        }
    }
}

/// Moves the cursor of `consumer_id` to `new_sequence` as part of
/// `transaction`. The new position has to lie beyond the cursor, else the
/// call fails with [`Error::ProgressRegression`] and changes nothing; where
/// the consumer has no cursor yet, every position will do. The move becomes
/// durable when the transaction commits, together with everything else that
/// was written through it, and not before.
pub fn advance<'a, T: Transaction<'a>>(
    transaction: &mut T,
    consumer_id: &str,
    new_sequence: u64,
) -> (advanced: Result<(), Error>)
    ensures
        final(transaction).durable() == old(transaction).durable(),
        final(transaction).staged_events() == old(transaction).staged_events(),
        admits(*old(transaction), consumer_id@, new_sequence) ==> advanced is Ok
            && final(transaction).staged_cursors() == old(transaction).staged_cursors().insert(
            consumer_id@,
            new_sequence,
        ),
        !admits(*old(transaction), consumer_id@, new_sequence) ==> advanced == Err::<(), Error>(
            Error::ProgressRegression,
        ) && final(transaction).staged_cursors() == old(transaction).staged_cursors(),
{
    if let Some(at) = transaction.cursor(consumer_id) {
        if new_sequence <= at {
            return Err(Error::ProgressRegression);
        }
    }
    transaction.stage_cursor(consumer_id, new_sequence);
    Ok(())
}

} // verus!
