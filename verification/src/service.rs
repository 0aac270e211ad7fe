//! Service control: what a worker does in one iteration, and what it does
//! next.
//!
//! A worker is a loop around one of two kinds of iteration. A plain
//! iteration runs a service once. An iteration of an event loop binds a
//! transaction, the next batch of events for a consumer, the handling of
//! each event and the move of the consumer's cursor into one unit of work
//! that is committed whole or not at all. Running the loop, sleeping and
//! stopping are left to the caller, which is told after each iteration what
//! to do next.

pub mod auction_house;
pub mod bidding_engine;
pub mod ui;

use crate::error::Error;
use crate::event_log::{events_after, read_is_a_range, sequenced, DomainEvent, Event};
use crate::persistence::{
    admits, after_commit, Connection, GenericConnection, Persistence, StoreState, Transaction,
};
use crate::progress::cursor_of;
use vstd::prelude::*;

verus! {

/// How an iteration of an event loop ended.
#[derive(Debug, PartialEq, Eq)]
pub enum IterationOutcome {
    /// A batch of `count` events was handled and committed together with
    /// the consumer's cursor, which is now at `cursor`.
    Applied { count: usize, cursor: u64 },
    /// There was no event to handle.
    Idle,
    /// The iteration failed with `error` and nothing of it was committed.
    /// Where it had to be rolled back and the rollback failed too,
    /// `rollback` holds why.
    Failed { error: Error, rollback: Option<Error> },
}

/// What a worker does after an iteration.
#[derive(Debug, PartialEq, Eq, Clone, Copy)]
pub enum Directive {
    /// Run the next iteration at once.
    Continue,
    /// Nothing to do for now: sleep a moment, then run the next iteration.
    Yield,
    /// The iteration failed: report it, wait, then run it again.
    Backoff,
    /// Leave the loop.
    Stop,
}

/// A service that is run as a plain loop: one call is one iteration.
///
/// What an iteration does is the service's own affair. A service may say
/// how an iteration can leave it and end; one that does not say admits
/// every end.
pub trait LoopService {
    /// Whether an iteration of this service can leave it as `after` and end
    /// with `done`.
    open spec fn ran(&self, after: &Self, done: Result<(), Error>) -> bool {
        true
    }

    /// Runs the service once.
    fn run_iteration(&mut self) -> (done: Result<(), Error>)
        ensures
            old(self).ran(final(self), done),
    ;
}

/// The sequence after which a consumer goes on reading: its durable
/// cursor, or 0, which is before the first event, if it has none.
pub open spec fn resume_point(store: StoreState, consumer_id: Seq<char>) -> u64 {
    match cursor_of(store.cursors, consumer_id) {
        Some(at) => at,
        None => 0,
    }
}

/// The batch that an iteration for `consumer_id` handles: the events that
/// follow the consumer's cursor, `max` at most.
pub open spec fn next_batch(store: StoreState, consumer_id: Seq<char>, max: nat) -> Seq<Event> {
    events_after(store.log, resume_point(store, consumer_id), max)
}

/// What a kind of backend promises of the envelope of a unit of work.
pub struct Backend {
    /// Connecting, starting a transaction and committing never fail.
    pub dependable: bool,
    /// A transaction can be rolled back.
    pub rolls_back: bool,
}

/// What the backend behind the store `P` promises.
pub open spec fn backend_of<'p, P>() -> Backend where
    P: Persistence<'p>,
    for<'a> P::Connection: Connection<'p, 'a>,
 {
    Backend {
        dependable: P::connects() && <P::Connection as Connection<'p, 'p>>::starts() && <<
            P::Connection as Connection<'p, 'p>
        >::Transaction as Transaction<'p>>::commits(),
        rolls_back: <<P::Connection as Connection<'p, 'p>>::Transaction as Transaction<
            'p,
        >>::rolls_back(),
    }
}

/// How an iteration of the event loop of `consumer_id`, with batches of up
/// to `max` events, relates the store it found to the store it left and to
/// its outcome.
///
/// It is idle only when there is nothing to read. Unless it applied a
/// batch, it has left the store as it was. A batch that it applied is all
/// that there was to read, up to `max`, and at least one event; the store
/// then holds one commit more: the cursor of the consumer at the last event
/// of the batch, and what the handler wrote. A cursor that was there is
/// there still, and has not moved back. A failure of the handler or of the
/// cursor is the failure of a batch that was there, and it is rolled back,
/// which fails in its turn exactly where the backend has no rollback. Any
/// other failure is the backend's: it could not be connected to, would not
/// start a transaction or could not commit, which a dependable backend
/// never does.
pub open spec fn iteration(
    backend: Backend,
    before: StoreState,
    after: StoreState,
    outcome: IterationOutcome,
    consumer_id: Seq<char>,
    max: nat,
) -> bool {
    let batch = next_batch(before, consumer_id, max);
    &&& outcome is Idle ==> batch.len() == 0
    &&& !(outcome is Applied) ==> after == before
    &&& outcome matches IterationOutcome::Failed { error, rollback } ==> if error is HandlerFailed
        || error is ProgressRegression {
        &&& batch.len() > 0
        &&& rollback == if backend.rolls_back {
            None
        } else {
            Some(Error::RollbackUnsupported)
        }
    } else {
        &&& error is BackendUnavailable || error is TransactionConflict || error is CommitFailed
        &&& !backend.dependable
        &&& rollback is None
    }
    &&& outcome matches IterationOutcome::Applied { count, cursor } ==> {
        &&& batch.len() > 0
        &&& count == batch.len()
        &&& cursor == batch.last().sequence
        &&& exists|events: Seq<DomainEvent>, moved: Map<Seq<char>, u64>|
            after == #[trigger] after_commit(before, events, moved) && moved.contains_pair(
                consumer_id,
                cursor,
            )
        &&& forall|id: Seq<char>|
            before.cursors.dom().contains(id) ==> after.cursors.dom().contains(id)
                && after.cursors[id] >= #[trigger] before.cursors[id]
    }
}

/// Whether `handler` has been handed `event`, with some transaction, and has
/// come back with `handled`.
pub open spec fn answered<T, F: Fn(&mut T, &DomainEvent) -> Result<(), String>>(
    handler: &F,
    event: DomainEvent,
    handled: Result<(), String>,
) -> bool {
    exists|transaction: &mut T| #[trigger] call_ensures(*handler, (transaction, &event), handled)
}

/// Whether `handler` has been handed every event of `batch` and has
/// succeeded on each.
pub open spec fn handled_all<T, F: Fn(&mut T, &DomainEvent) -> Result<(), String>>(
    handler: &F,
    batch: Seq<Event>,
) -> bool {
    forall|i: int|
        0 <= i < batch.len() ==> answered::<T, F>(handler, (#[trigger] batch[i]).payload, Ok(()))
}

/// Whether `handler` has failed with `message` on the event at index `k` of
/// `batch`, after it had succeeded on every event before that one.
pub open spec fn failed_on<T, F: Fn(&mut T, &DomainEvent) -> Result<(), String>>(
    handler: &F,
    batch: Seq<Event>,
    k: int,
    message: String,
) -> bool {
    &&& 0 <= k < batch.len()
    &&& answered::<T, F>(handler, batch[k].payload, Err(message))
    &&& handled_all::<T, F>(handler, batch.take(k))
}

/// Whether a handler that was handed the transaction `before` and gave it
/// back as `after` has left it open on the store it was opened on.
pub open spec fn left_open<'a, T: GenericConnection<'a>>(before: T, after: T) -> bool {
    after.durable() == before.durable()
}

/// What follows from an outcome for the worker. A batch that was applied may
/// have more behind it; an idle log is left alone for a while; a failure
/// is retried after a wait, unless it is fatal: a cursor that would have
/// moved backwards, or a rollback that the backend could not perform.
pub open spec fn consequence(outcome: IterationOutcome) -> Directive {
    match outcome {
        IterationOutcome::Applied { .. } => Directive::Continue,
        IterationOutcome::Idle => Directive::Yield,
        IterationOutcome::Failed { error, rollback } => if error.fatal() || rollback is Some {
            Directive::Stop
        } else {
            Directive::Backoff
        },
    }
}

impl IterationOutcome {
    /// Computes [`consequence`].
    pub fn directive(&self) -> (directive: Directive)
        ensures
            directive == consequence(*self),
    {
        match self {
            IterationOutcome::Applied { .. } => Directive::Continue,
            IterationOutcome::Idle => Directive::Yield,
            IterationOutcome::Failed { error, rollback } => {
                if error.is_fatal() || rollback.is_some() {
                    Directive::Stop
                } else {
                    Directive::Backoff
                }
            },
        }
    }
}

/// Runs worker loops one iteration at a time.
#[derive(Debug, Clone, Copy, PartialEq, Eq)]
pub struct ServiceControl {
    batch_size: usize,
}

impl ServiceControl {
    /// The most events that an iteration of an event loop handles.
    pub closed spec fn spec_batch_size(&self) -> usize {
        self.batch_size
    }

    /// A control whose event loops handle up to `batch_size` events in an
    /// iteration. With a batch size of 0 they never find anything to do.
    pub fn new(batch_size: usize) -> (control: Self)
        ensures
            control.batch_size() == batch_size,
    {
        ServiceControl { batch_size }
    }

    /// The most events that an iteration of an event loop handles.
    #[verifier::when_used_as_spec(spec_batch_size)]
    pub fn batch_size(&self) -> (batch_size: usize)
        ensures
            batch_size == self.batch_size(),
    {
        self.batch_size
    }

    /// What a worker does next: it stops when it was asked to, which is
    /// looked at between iterations only, and else does what follows from
    /// the outcome of the iteration.
    pub fn next_step(&self, outcome: &IterationOutcome, stop_requested: bool) -> (directive:
        Directive)
        ensures
            directive == if stop_requested {
                Directive::Stop
            } else {
                consequence(*outcome)
            },
    {
        if stop_requested {
            Directive::Stop
        } else {
            outcome.directive()
        }
    }

    /// Runs one iteration of a plain loop: runs the service once and hands
    /// on the failure that it ended with, if it ended with one. A failure
    /// is no reason to stop: the worker waits and tries again.
    pub fn run_loop_iteration<S: LoopService>(&self, service: &mut S, stop_requested: bool) -> (next:
        (Directive, Option<Error>))
        ensures
            exists|done: Result<(), Error>| #[trigger]
                old(service).ran(final(service), done) && (done is Ok <==> next.1 is None) && (
                done matches Err(error) ==> next.1 == Some(error)),
            stop_requested ==> next.0 == Directive::Stop,
            !stop_requested ==> (next.1 is None <==> next.0 == Directive::Continue),
            !stop_requested ==> (next.1 is Some <==> next.0 == Directive::Backoff),
    {
        let failure = match service.run_iteration() {
            Ok(()) => None,
            Err(error) => Some(error),
        };
        (after_plain_iteration(failure.is_some(), stop_requested), failure)
    }

    /// Runs one iteration of the event loop of `consumer_id` on whatever
    /// backend the store has: opens a transaction, reads the events that
    /// follow the consumer's cursor, hands each of them with the transaction
    /// to `handler`, moves the cursor to the last of them and commits.
    ///
    /// With no event to read the iteration is idle. When the handler fails
    /// on an event, or anything else does, nothing is committed: not the
    /// cursor, and nothing that was written through the transaction for
    /// that event or for those before it. The next iteration then finds the
    /// same batch.
    ///
    /// The handler has to be callable on every event, and has to leave the
    /// transaction that it is handed open on its store.
    pub fn run_event_loop_iteration<'p, P, F>(
        &self,
        persistence: &'p mut P,
        consumer_id: &str,
        handler: &F,
    ) -> (outcome: IterationOutcome) where
        P: Persistence<'p>,
        for<'a> P::Connection: Connection<'p, 'a>,
        F: for<'a> Fn(
            &mut <P::Connection as Connection<'p, 'a>>::Transaction,
            &DomainEvent,
        ) -> Result<(), String>,

        requires
            forall|
                transaction: &mut <P::Connection as Connection<'p, 'p>>::Transaction,
                event: &DomainEvent,
            | #[trigger]
                call_requires(*handler, (transaction, event)),
            forall|
                transaction: &mut <P::Connection as Connection<'p, 'p>>::Transaction,
                event: &DomainEvent,
                handled: Result<(), String>,
            | #[trigger]
                call_ensures(*handler, (transaction, event), handled) ==> left_open(
                    *transaction,
                    *final(transaction),
                ),
        ensures
            iteration(
                backend_of::<P>(),
                old(persistence).state(),
                final(persistence).state(),
                outcome,
                consumer_id@,
                self.batch_size() as nat,
            ),
            outcome is Applied || (outcome matches IterationOutcome::Failed {
                error: Error::ProgressRegression,
                ..
            }) ==> handled_all::<<P::Connection as Connection<'p, 'p>>::Transaction, F>(
                handler,
                next_batch(old(persistence).state(), consumer_id@, self.batch_size() as nat),
            ),
            (forall|
                transaction: &mut <P::Connection as Connection<'p, 'p>>::Transaction,
                event: &DomainEvent,
                handled: Result<(), String>,
            | #[trigger]
                call_ensures(*handler, (transaction, event), handled) ==> *final(transaction)
                    == *transaction) ==> match outcome {
                IterationOutcome::Applied { cursor, .. } => final(persistence).state()
                    == after_commit(
                    old(persistence).state(),
                    Seq::empty(),
                    map![consumer_id@ => cursor],
                ),
                IterationOutcome::Idle => true,
                IterationOutcome::Failed { error, .. } => !(error is ProgressRegression),
            },
            outcome matches IterationOutcome::Failed { error: Error::HandlerFailed(message), .. }
                ==> exists|k: int| #[trigger]
                failed_on::<<P::Connection as Connection<'p, 'p>>::Transaction, F>(
                    handler,
                    next_batch(old(persistence).state(), consumer_id@, self.batch_size() as nat),
                    k,
                    message,
                ),
    {
        let mut connection = match persistence.get_connection() {
            Ok(connection) => connection,
            Err(error) => {
                return IterationOutcome::Failed { error, rollback: None };
            },
        };
        let outcome = match connection.start_transaction() {
            Ok(mut transaction) => {
                let after = match transaction.get_progress(consumer_id) {
                    Some(at) => at,
                    None => 0,
                };
                let batch = transaction.read_after(after, self.batch_size);
                if batch.len() == 0 {
                    proof {
                        transaction.released();
                    }
                    IterationOutcome::Idle
                } else {
                    let handled = apply_batch(&mut transaction, &batch, handler);
                    let last = batch[batch.len() - 1].sequence;
                    let ghost answer = handled;
                    let outcome = conclude_batch(
                        transaction,
                        consumer_id,
                        batch.len(),
                        last,
                        handled,
                    );
                    proof {
                        if let Err(message) = answer {
                            assert(outcome matches IterationOutcome::Failed {
                                error: Error::HandlerFailed(reported),
                                ..
                            } && reported == message);
                        }
                    }
                    outcome
                }
            },
            Err(error) => IterationOutcome::Failed { error, rollback: None },
        };
        proof {
            connection.released();
        }
        outcome
    }
}

/// What a plain loop does after an iteration that failed or did not.
pub fn after_plain_iteration(failed: bool, stop_requested: bool) -> (directive: Directive)
    ensures
        directive == if stop_requested {
            Directive::Stop
        } else if failed {
            Directive::Backoff
        } else {
            Directive::Continue
        },
{
    if stop_requested {
        Directive::Stop
    } else if failed {
        Directive::Backoff
    } else {
        Directive::Continue
    }
}

/// Hands the events of `batch`, in their order, to `handler`, each with the
/// transaction, and stops at the first event on which the handler fails,
/// with what the handler reported. The transaction stays open on its store.
pub fn apply_batch<'a, T, F>(transaction: &mut T, batch: &Vec<Event>, handler: &F) -> (handled:
    Result<(), String>) where
    T: Transaction<'a>,
    F: Fn(&mut T, &DomainEvent) -> Result<(), String>,

    requires
        forall|transaction: &mut T, event: &DomainEvent| #[trigger]
            call_requires(*handler, (transaction, event)),
        forall|transaction: &mut T, event: &DomainEvent, handled: Result<(), String>| #[trigger]
            call_ensures(*handler, (transaction, event), handled) ==> left_open(
                *transaction,
                *final(transaction),
            ),
    ensures
        final(transaction).durable() == old(transaction).durable(),
        batch@.len() == 0 ==> handled is Ok && *final(transaction) == *old(transaction),
        (forall|transaction: &mut T, event: &DomainEvent, handled: Result<(), String>| #[trigger]
            call_ensures(*handler, (transaction, event), handled) ==> *final(transaction)
                == *transaction) ==> *final(transaction) == *old(transaction),
        handled is Ok ==> handled_all::<T, F>(handler, batch@),
        handled matches Err(message) ==> exists|k: int| #[trigger]
            failed_on::<T, F>(handler, batch@, k, message),
{
    let mut i: usize = 0;
    while i < batch.len()
        invariant
            i <= batch@.len(),
            handled_all::<T, F>(handler, batch@.take(i as int)),
            forall|transaction: &mut T, event: &DomainEvent| #[trigger]
                call_requires(*handler, (transaction, event)),
            forall|transaction: &mut T, event: &DomainEvent, handled: Result<(), String>| #[trigger]
                call_ensures(*handler, (transaction, event), handled) ==> left_open(
                    *transaction,
                    *final(transaction),
                ),
            transaction.durable() == old(transaction).durable(),
            batch@.len() == 0 ==> *transaction == *old(transaction),
            (forall|transaction: &mut T, event: &DomainEvent, handled: Result<(), String>| #[trigger]
                call_ensures(*handler, (transaction, event), handled) ==> *final(transaction)
                    == *transaction) ==> *transaction == *old(transaction),
        decreases batch.len() - i,
    {
        let handled = handler(transaction, &batch[i].payload);
        match handled {
            Ok(done) => {
                assert(answered::<T, F>(handler, batch@[i as int].payload, Ok(done)));
            },
            Err(message) => {
                assert(failed_on::<T, F>(handler, batch@, i as int, message));
                return Err(message);
            },
        }
        i += 1;
    }
    assert(batch@.take(i as int) == batch@);
    Ok(())
}

/// Ends the transaction of an iteration in which `count` events, the last
/// of them with sequence `last`, were handed to the handler with the result
/// `handled`.
///
/// Where the handler failed, the transaction is rolled back and the
/// failure reported, together with that of the rollback where the backend
/// has none. Where it did not, the cursor of `consumer_id` is moved to
/// `last` and the transaction committed: the store then holds what was
/// written through the transaction, and the cursor. A cursor that is at
/// `last` already or beyond it does not move: that is a failure, and the
/// transaction is rolled back. A commit that fails, which it can only where
/// the backend does not promise otherwise, is a failure too. Whatever
/// fails, the store holds what it held.
pub fn conclude_batch<'a, T: Transaction<'a>>(
    transaction: T,
    consumer_id: &str,
    count: usize,
    last: u64,
    handled: Result<(), String>,
) -> (outcome: IterationOutcome)
    ensures
        forall|id: Seq<char>|
            T::holds(old(transaction.durable())).cursors.dom().contains(id) ==> T::holds(
                final(transaction.durable()),
            ).cursors.dom().contains(id) && T::holds(final(transaction.durable())).cursors[id]
                >= #[trigger] T::holds(old(transaction.durable())).cursors[id],
        !(outcome is Applied) ==> T::holds(final(transaction.durable())) == T::holds(
            old(transaction.durable()),
        ),
        match handled {
            Err(message) => outcome == (IterationOutcome::Failed {
                error: Error::HandlerFailed(message),
                rollback: if T::rolls_back() {
                    None
                } else {
                    Some(Error::RollbackUnsupported)
                },
            }),
            Ok(()) => if admits(transaction, consumer_id@, last) {
                if outcome is Applied {
                    &&& outcome == (IterationOutcome::Applied { count, cursor: last })
                    &&& T::holds(final(transaction.durable())) == after_commit(
                        T::holds(old(transaction.durable())),
                        transaction.staged_events(),
                        transaction.staged_cursors().insert(consumer_id@, last),
                    )
                } else {
                    &&& outcome == (IterationOutcome::Failed {
                        error: Error::CommitFailed,
                        rollback: None,
                    })
                    &&& !T::commits()
                }
            } else {
                outcome == (IterationOutcome::Failed {
                    error: Error::ProgressRegression,
                    rollback: if T::rolls_back() {
                        None
                    } else {
                        Some(Error::RollbackUnsupported)
                    },
                })
            },
        },
{
    let mut transaction = transaction;
    let failure = match handled {
        Ok(()) => match crate::progress::advance(&mut transaction, consumer_id, last) {
            Ok(()) => None,
            Err(error) => Some(error),
        },
        Err(message) => Some(Error::HandlerFailed(message)),
    };
    match failure {
        None => match transaction.commit() {
            Ok(()) => IterationOutcome::Applied { count, cursor: last },
            Err(error) => IterationOutcome::Failed { error, rollback: None },
        },
        Some(error) => {
            let rollback = match transaction.rollback() {
                Ok(()) => None,
                Err(error) => Some(error),
            };
            IterationOutcome::Failed { error, rollback }
        },
    }
}

/// An iteration that fails leaves no trace: the store, and with it the log
/// and every cursor, is as the iteration found it, whatever the handler
/// wrote before it failed and for whichever event it failed.
pub proof fn failed_iteration_leaves_no_trace(
    backend: Backend,
    before: StoreState,
    after: StoreState,
    outcome: IterationOutcome,
    consumer_id: Seq<char>,
    max: nat,
)
    requires
        iteration(backend, before, after, outcome, consumer_id, max),
        outcome is Failed,
    ensures
        after == before,
        cursor_of(after.cursors, consumer_id) == cursor_of(before.cursors, consumer_id),
{
}

/// An iteration that is run again after one that failed finds the batch
/// that the failed one had found, and is an iteration on the store as it
/// was before the failure: a failure and a retry leave what the retry alone
/// would have left.
pub proof fn retry_is_a_first_try(
    backend: Backend,
    before: StoreState,
    between: StoreState,
    after: StoreState,
    failure: IterationOutcome,
    retry: IterationOutcome,
    consumer_id: Seq<char>,
    max: nat,
)
    requires
        iteration(backend, before, between, failure, consumer_id, max),
        failure is Failed,
        iteration(backend, between, after, retry, consumer_id, max),
    ensures
        next_batch(between, consumer_id, max) == next_batch(before, consumer_id, max),
        iteration(backend, before, after, retry, consumer_id, max),
{
}

/// A batch that was applied is behind the consumer for good: its cursor
/// has moved forward to the last event of the batch, so that no event of
/// the batch is read again and the next batch starts right after it.
pub proof fn applied_batch_is_not_read_again(
    backend: Backend,
    before: StoreState,
    after: StoreState,
    outcome: IterationOutcome,
    consumer_id: Seq<char>,
    max: nat,
)
    requires
        sequenced(before.log),
        sequenced(after.log),
        iteration(backend, before, after, outcome, consumer_id, max),
        outcome is Applied,
    ensures
        resume_point(after, consumer_id) == outcome->cursor,
        resume_point(after, consumer_id) > resume_point(before, consumer_id),
        forall|i: int|
            0 <= i < next_batch(before, consumer_id, max).len() ==> (#[trigger] next_batch(
                before,
                consumer_id,
                max,
            )[i]).sequence <= outcome->cursor,
        forall|i: int|
            0 <= i < next_batch(after, consumer_id, max).len() ==> (#[trigger] next_batch(
                after,
                consumer_id,
                max,
            )[i]).sequence > outcome->cursor,
{
    read_is_a_range(before.log, resume_point(before, consumer_id), max);
    read_is_a_range(after.log, resume_point(after, consumer_id), max);
}

/// A consumer whose cursor is at the end of the log has nothing to do: its
/// iteration applies nothing and leaves the store alone, and on a
/// dependable backend it is idle.
pub proof fn caught_up_consumer_is_idle(
    backend: Backend,
    before: StoreState,
    after: StoreState,
    outcome: IterationOutcome,
    consumer_id: Seq<char>,
    max: nat,
)
    requires
        sequenced(before.log),
        resume_point(before, consumer_id) >= before.log.len(),
        iteration(backend, before, after, outcome, consumer_id, max),
    ensures
        !(outcome is Applied),
        backend.dependable ==> outcome is Idle,
        after == before,
{
    read_is_a_range(before.log, resume_point(before, consumer_id), max);
}

/// With something to read and a dependable backend an iteration is not
/// idle: it applies the batch, or fails on the handler or on the cursor.
pub proof fn pending_batch_is_taken_up(
    backend: Backend,
    before: StoreState,
    after: StoreState,
    outcome: IterationOutcome,
    consumer_id: Seq<char>,
    max: nat,
)
    requires
        next_batch(before, consumer_id, max).len() > 0,
        iteration(backend, before, after, outcome, consumer_id, max),
    ensures
        !(outcome is Idle),
        backend.dependable ==> (outcome matches IterationOutcome::Failed { error, .. }
            ==> error is HandlerFailed || error is ProgressRegression),
{
}

} // verus!
