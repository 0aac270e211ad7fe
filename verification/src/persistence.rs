//! Persistence: stores that hand out connections, and connections that
//! start transactions.
//!
//! A transaction is the envelope of one unit of work. Whatever is written
//! through it stays with it until it commits; then all of it becomes durable
//! at once. A transaction borrows its connection, and a connection its
//! store, for as long as they live: no transaction outlives its connection,
//! no connection has two transactions open, and a transaction that has
//! committed or rolled back is gone.
//!
//! The traits say what is owed by every backend, whatever it keeps its
//! state in; what runs on them never names one. The backend that is here
//! keeps its state in memory.

use crate::error::Error;
use crate::event_log::{
    events_after, numbered, read_is_a_range, sequenced, DomainEvent, Event, EventLog,
};
use crate::progress::{cursor_of, ProgressStore};
use vstd::prelude::*;

verus! {

/// What connections and transactions have in common: both are handles on
/// a store, through which what the store holds durably can be read.
///
/// A handle borrows its store for as long as it lives. What the store
/// holds when the handle has ended is what the handle left there.
pub trait GenericConnection<'s>: Sized {
    /// What the backend keeps its durable state in.
    type Store;

    /// The store the handle is bound to: what it holds now, and what it
    /// will hold when the handle has ended.
    spec fn durable(self) -> &'s mut Self::Store;

    /// The event log and the cursors that a store holds.
    spec fn holds(store: &Self::Store) -> StoreState;

    /// A handle that is no longer in use leaves the store as it sees it.
    /// For a transaction that means: giving it up without a commit is a
    /// rollback.
    proof fn released(self)
        requires
            has_resolved(self),
        ensures
            Self::holds(final(self.durable())) == Self::holds(self.durable()),
    ;

    /// Returns up to `max` events of the durable log with a sequence greater
    /// than `sequence`, in ascending order of sequence; none when there is
    /// none. The durable log numbers its events from 1 without a gap.
    fn read_after(&self, sequence: u64, max: usize) -> (events: Vec<Event>)
        ensures
            sequenced(Self::holds(self.durable()).log),
            events@ == events_after(Self::holds(self.durable()).log, sequence, max as nat),
    ;

    /// The durable cursor of `consumer_id`, or `None` if the consumer has
    /// never advanced.
    fn get_progress(&self, consumer_id: &str) -> (progress: Option<u64>)
        ensures
            progress == cursor_of(Self::holds(self.durable()).cursors, consumer_id@),
    ;
}

/// A store that can be connected to.
pub trait Persistence<'p>: Sized {
    type Connection: GenericConnection<'p>;

    /// What the store holds durably.
    spec fn state(&self) -> StoreState;

    /// Whether a connection to this kind of store can always be had.
    spec fn connects() -> bool;

    /// Gets a connection to the store. The only failure is
    /// [`Error::BackendUnavailable`], and it leaves the store as it is. The
    /// connection sees what the store holds; the store, once the connection
    /// has ended, holds what the connection left.
    fn get_connection(&'p mut self) -> (connection: Result<Self::Connection, Error>)
        ensures
            Self::connects() ==> connection is Ok,
            connection matches Err(e) ==> e == Error::BackendUnavailable && final(self).state()
                == old(self).state(),
            connection matches Ok(c) ==> Self::Connection::holds(c.durable()) == old(self).state() && final(self).state() == Self::Connection::holds(final(c.durable())),
    ;
}

/// A connection to a store.
pub trait Connection<'p, 'a>: GenericConnection<'p> {
    type Transaction: Transaction<'a>;

    /// Whether a transaction can always be started on this kind of
    /// connection.
    spec fn starts() -> bool;

    /// Starts a transaction that lives no longer than this borrow of the
    /// connection. The only failure is [`Error::TransactionConflict`], and
    /// it leaves the store as it is. The transaction starts with nothing
    /// written and sees the store as the connection sees it; the
    /// connection, once the transaction has ended, sees the store as the
    /// transaction left it.
    fn start_transaction(&'a mut self) -> (transaction: Result<Self::Transaction, Error>)
        ensures
            Self::starts() ==> transaction is Ok,
            Self::holds(final(final(self).durable())) == Self::holds(final(old(self).durable())),
            transaction matches Err(e) ==> e == Error::TransactionConflict && Self::holds(
                final(self).durable(),
            ) == Self::holds(old(self).durable()),
            transaction matches Ok(tx) ==> {
                &&& Self::Transaction::holds(tx.durable()) == Self::holds(old(self).durable())
                &&& tx.staged_events() == Seq::<DomainEvent>::empty()
                &&& tx.staged_cursors() == Map::<Seq<char>, u64>::empty()
                &&& Self::holds(final(self).durable()) == Self::Transaction::holds(
                    final(tx.durable()),
                )
            },
    ;
}

/// A transaction on a store: the envelope of one unit of work. What is
/// written through it stays with it until it commits.
pub trait Transaction<'a>: GenericConnection<'a> {
    /// The events written through the transaction so far, in their order.
    spec fn staged_events(&self) -> Seq<DomainEvent>;

    /// The cursors advanced through the transaction so far.
    spec fn staged_cursors(&self) -> Map<Seq<char>, u64>;

    /// Whether a commit on this kind of store always succeeds.
    spec fn commits() -> bool;

    /// Whether this kind of store can roll a transaction back.
    spec fn rolls_back() -> bool;

    /// How many more events the log can number.
    fn room(&self) -> (room: u64)
        ensures
            forall|count: nat|
                room_for(Self::holds(self.durable()), self.staged_events(), count) <==> count
                    <= room,
    ;

    /// Keeps `events` for the commit.
    fn stage_events(&mut self, events: &[DomainEvent])
        requires
            room_for(Self::holds(old(self).durable()), old(self).staged_events(), events@.len()),
        ensures
            final(self).durable() == old(self).durable(),
            final(self).staged_events() == old(self).staged_events() + events@,
            final(self).staged_cursors() == old(self).staged_cursors(),
    ;

    /// The cursor of `consumer_id` as this transaction would leave it: the
    /// one advanced in this transaction, or else the durable one.
    fn cursor(&self, consumer_id: &str) -> (cursor: Option<u64>)
        ensures
            cursor == cursor_of(
                after_commit(
                    Self::holds(self.durable()),
                    self.staged_events(),
                    self.staged_cursors(),
                ).cursors,
                consumer_id@,
            ),
    ;

    /// Keeps the new cursor of `consumer_id` for the commit.
    fn stage_cursor(&mut self, consumer_id: &str, sequence: u64)
        requires
            admitted(
                Self::holds(old(self).durable()),
                old(self).staged_cursors(),
                consumer_id@,
                sequence,
            ),
        ensures
            final(self).durable() == old(self).durable(),
            final(self).staged_events() == old(self).staged_events(),
            final(self).staged_cursors() == old(self).staged_cursors().insert(
                consumer_id@,
                sequence,
            ),
    ;

    /// Makes every write of the transaction durable and ends it: the store
    /// then holds what the transaction had pending, and no cursor has moved
    /// back. The only failure is [`Error::CommitFailed`], and it leaves the
    /// store as it was.
    fn commit(self) -> (done: Result<(), Error>)
        ensures
            Self::commits() ==> done is Ok,
            done matches Err(e) ==> e == Error::CommitFailed && Self::holds(
                final(self.durable()),
            ) == Self::holds(old(self.durable())),
            done is Ok ==> Self::holds(final(self.durable())) == after_commit(
                Self::holds(old(self.durable())),
                self.staged_events(),
                self.staged_cursors(),
            ),
            done is Ok ==> forall|id: Seq<char>|
                Self::holds(old(self.durable())).cursors.dom().contains(id) ==> Self::holds(
                    final(self.durable()),
                ).cursors.dom().contains(id) && Self::holds(final(self.durable())).cursors[id]
                    >= #[trigger] Self::holds(old(self.durable())).cursors[id],
    ;

    /// Ends the transaction without its writes: the store holds what it
    /// held. The only failure is [`Error::RollbackUnsupported`], which a
    /// store that has no rollback always reports.
    fn rollback(self) -> (done: Result<(), Error>)
        ensures
            done is Ok <==> Self::rolls_back(),
            done matches Err(e) ==> e == Error::RollbackUnsupported,
            Self::holds(final(self.durable())) == Self::holds(old(self.durable())),
    ;
}

/// What the store will hold if `transaction` commits now.
pub open spec fn pending<'a, T: Transaction<'a>>(transaction: T) -> StoreState {
    after_commit(
        T::holds(transaction.durable()),
        transaction.staged_events(),
        transaction.staged_cursors(),
    )
}

/// Whether a log that holds what `base` holds has sequences left for
/// `count` more events than the `staged` ones.
pub open spec fn room_for(base: StoreState, staged: Seq<DomainEvent>, count: nat) -> bool {
    base.log.len() + staged.len() + count <= u64::MAX
}

/// Whether the log has sequences left for `count` more events than
/// `transaction` holds already.
pub open spec fn has_room<'a, T: Transaction<'a>>(transaction: T, count: nat) -> bool {
    room_for(T::holds(transaction.durable()), transaction.staged_events(), count)
}

/// Whether a consumer may advance to `sequence`: it must lie beyond the
/// consumer's cursor, the one among `staged` or else the one that `base`
/// holds, if there is any.
pub open spec fn admitted(
    base: StoreState,
    staged: Map<Seq<char>, u64>,
    consumer_id: Seq<char>,
    sequence: u64,
) -> bool {
    match cursor_of(base.cursors.union_prefer_right(staged), consumer_id) {
        Some(at) => sequence > at,
        None => true,
    }
}

/// Whether `consumer_id` may advance to `sequence` in `transaction`: it
/// must lie beyond the consumer's cursor, the one advanced in this
/// transaction or else the durable one, if it has any.
pub open spec fn admits<'a, T: Transaction<'a>>(
    transaction: T,
    consumer_id: Seq<char>,
    sequence: u64,
) -> bool {
    admitted(
        T::holds(transaction.durable()),
        transaction.staged_cursors(),
        consumer_id,
        sequence,
    )
}

/// What a store holds durably: the event log and the cursor of every
/// consumer that has one.
#[verifier::ext_equal]
pub struct StoreState {
    pub log: Seq<Event>,
    pub cursors: Map<Seq<char>, u64>,
}

/// The durable state after a commit of `events` and `cursors` on top of
/// `base`: the events follow those of `base` and are numbered on from them,
/// and each of `cursors` replaces the one that `base` has for its consumer.
pub open spec fn after_commit(
    base: StoreState,
    events: Seq<DomainEvent>,
    cursors: Map<Seq<char>, u64>,
) -> StoreState {
    StoreState {
        log: base.log + numbered(events, base.log.len()),
        cursors: base.cursors.union_prefer_right(cursors),
    }
}

/// What a commit makes visible: the log goes on, without a gap in its
/// numbering, with the events that were written, which is what a reader
/// finds after the events that were there; each cursor that was advanced is
/// where it was advanced to; and every other cursor is where it was.
pub proof fn commit_shows_every_write(
    base: StoreState,
    events: Seq<DomainEvent>,
    cursors: Map<Seq<char>, u64>,
)
    requires
        sequenced(base.log),
        base.log.len() + events.len() <= u64::MAX,
    ensures
        sequenced(after_commit(base, events, cursors).log),
        base.log.is_prefix_of(after_commit(base, events, cursors).log),
        events_after(after_commit(base, events, cursors).log, base.log.len() as u64, events.len())
            == numbered(events, base.log.len()),
        forall|id: Seq<char>| #[trigger]
            cursors.dom().contains(id) ==> cursor_of(after_commit(base, events, cursors).cursors, id)
                == Some(cursors[id]),
        forall|id: Seq<char>|
            !cursors.dom().contains(id) ==> #[trigger] cursor_of(
                after_commit(base, events, cursors).cursors,
                id,
            ) == cursor_of(base.cursors, id),
{
    let after = after_commit(base, events, cursors);
    read_is_a_range(after.log, base.log.len() as u64, events.len());
}

/// The durable state of the in-memory backend.
pub struct Store {
    log: EventLog,
    progress: ProgressStore,
}

impl Store {
    /// What the store holds.
    pub closed spec fn view(&self) -> StoreState {
        StoreState { log: self.log@, cursors: self.progress@ }
    }

    /// A store with an empty log and no cursor.
    pub fn new() -> (store: Self)
        ensures
            store@ == (StoreState { log: Seq::empty(), cursors: Map::empty() }),
    {
        Store { log: EventLog::new(), progress: ProgressStore::new() }
    }

    /// The committed event log.
    pub fn log(&self) -> (log: &EventLog)
        ensures
            log@ == self@.log,
    {
        &self.log
    }

    /// The committed cursors.
    pub fn progress(&self) -> (progress: &ProgressStore)
        ensures
            progress@ == self@.cursors,
    {
        &self.progress
    }
}

/// A store that lives in memory and is gone with the process.
pub struct InMemoryPersistence {
    store: Store,
}

/// A connection to an [`InMemoryPersistence`].
pub struct InMemoryConnection<'p> {
    store: &'p mut Store,
}

/// A transaction on an [`InMemoryConnection`]. It keeps its writes to
/// itself until it commits.
pub struct InMemoryTransaction<'a> {
    store: &'a mut Store,
    events: Vec<DomainEvent>,
    cursors: ProgressStore,
}

impl InMemoryPersistence {
    /// What the store holds durably.
    pub closed spec fn view(&self) -> StoreState {
        self.store@
    }

    /// An empty store.
    pub fn new() -> (persistence: Self)
        ensures
            persistence@ == (StoreState { log: Seq::empty(), cursors: Map::empty() }),
    {
        InMemoryPersistence { store: Store::new() }
    }

    /// The durable state, to read.
    pub fn store(&self) -> (store: &Store)
        ensures
            store@ == self@,
    {
        &self.store
    }
}

impl Default for InMemoryPersistence {
    fn default() -> (persistence: Self)
        ensures
            persistence@ == (StoreState { log: Seq::empty(), cursors: Map::empty() }),
    {
        InMemoryPersistence::new()
    }
}

impl<'p> InMemoryConnection<'p> {
    /// The durable state, to read.
    pub fn store(&self) -> (store: &Store)
        ensures
            store@ == Self::holds(self.durable()),
    {
        &*self.store
    }

    /// Starts a transaction, which in memory always succeeds. The
    /// transaction starts with nothing written and sees the store as the
    /// connection sees it; the connection, once the transaction has ended,
    /// sees the store as the transaction left it.
    pub fn start_transaction<'a>(&'a mut self) -> (transaction: Result<
        InMemoryTransaction<'a>,
        Error,
    >)
        ensures
            transaction matches Ok(tx) && tx.durable()@ == old(self).durable()@
                && tx.staged_events() == Seq::<DomainEvent>::empty()
                && tx.staged_cursors() == Map::<Seq<char>, u64>::empty()
                && final(self).durable()@ == final(tx.durable())@
                && final(final(self).durable())@ == final(old(self).durable())@,
    {
        // a log holds no more events than it can number
        let _ = self.store.log.len();
        Ok(
            InMemoryTransaction {
                store: &mut *self.store,
                events: Vec::new(),
                cursors: ProgressStore::new(),
            },
        )
    }
}

impl<'a> InMemoryTransaction<'a> {
    #[verifier::type_invariant]
    spec fn well_formed(self) -> bool {
        &&& self.store.log@.len() + self.events@.len() <= u64::MAX
        &&& forall|id: Seq<char>|
            self.cursors@.dom().contains(id) && self.store.progress@.dom().contains(id)
                ==> self.cursors@[id] > #[trigger] self.store.progress@[id]
    }

    /// The durable state, to read. It does not show what the transaction
    /// itself has written.
    pub fn store(&self) -> (store: &Store)
        ensures
            store@ == Self::holds(self.durable()),
    {
        &*self.store
    }
}

/// A connection that is no longer in use leaves the store as it sees it.
proof fn connection_released(connection: InMemoryConnection<'_>)
    requires
        has_resolved(connection),
    ensures
        *final(connection.store) == *old(connection.store),
{
}

/// A transaction that is given up without a commit leaves the store as it
/// found it.
proof fn transaction_abandoned(transaction: InMemoryTransaction<'_>)
    requires
        has_resolved(transaction),
    ensures
        *final(transaction.store) == *old(transaction.store),
{
}

impl<'p> GenericConnection<'p> for InMemoryConnection<'p> {
    type Store = Store;

    closed spec fn durable(self) -> &'p mut Store {
        self.store
    }

    open spec fn holds(store: &Store) -> StoreState {
        store@
    }

    proof fn released(self) {
        connection_released(self);
    }

    fn read_after(&self, sequence: u64, max: usize) -> (events: Vec<Event>) {
        let _ = self.store.log.len();
        self.store.log.read_after(sequence, max)
    }

    fn get_progress(&self, consumer_id: &str) -> (progress: Option<u64>) {
        self.store.progress.get_progress(consumer_id)
    }
}

impl<'a> GenericConnection<'a> for InMemoryTransaction<'a> {
    type Store = Store;

    closed spec fn durable(self) -> &'a mut Store {
        self.store
    }

    open spec fn holds(store: &Store) -> StoreState {
        store@
    }

    proof fn released(self) {
        transaction_abandoned(self);
    }

    fn read_after(&self, sequence: u64, max: usize) -> (events: Vec<Event>) {
        let _ = self.store.log.len();
        self.store.log.read_after(sequence, max)
    }

    fn get_progress(&self, consumer_id: &str) -> (progress: Option<u64>) {
        self.store.progress.get_progress(consumer_id)
    }
}

impl<'a> Transaction<'a> for InMemoryTransaction<'a> {
    closed spec fn staged_events(&self) -> Seq<DomainEvent> {
        self.events@
    }

    closed spec fn staged_cursors(&self) -> Map<Seq<char>, u64> {
        self.cursors@
    }

    /// A commit in memory always succeeds.
    open spec fn commits() -> bool {
        true
    }

    /// This backend has no rollback to offer.
    open spec fn rolls_back() -> bool {
        false
    }

    fn room(&self) -> (room: u64) {
        proof {
            use_type_invariant(self);
        }
        let held = self.store.log.len();
        let staged = self.events.len() as u64;
        u64::MAX - held - staged
    }

    fn stage_events(&mut self, events: &[DomainEvent]) {
        proof {
            use_type_invariant(&*self);
        }
        let mut staged: Vec<DomainEvent> = Vec::new();
        core::mem::swap(&mut staged, &mut self.events);
        let ghost before = staged@;
        let mut i: usize = 0;
        while i < events.len()
            invariant
                i <= events@.len(),
                staged@ == before + events@.subrange(0, i as int),
            decreases events.len() - i,
        {
            staged.push(events[i].clone());
            i += 1;
        }
        assert(events@.subrange(0, i as int) == events@);
        self.events = staged;
    }

    fn cursor(&self, consumer_id: &str) -> (cursor: Option<u64>) {
        match self.cursors.get_progress(consumer_id) {
            Some(at) => Some(at),
            None => self.store.progress.get_progress(consumer_id),
        }
    }

    fn stage_cursor(&mut self, consumer_id: &str, sequence: u64) {
        proof {
            use_type_invariant(&*self);
        }
        let mut cursors = ProgressStore::new();
        core::mem::swap(&mut cursors, &mut self.cursors);
        cursors.record(consumer_id, sequence);
        self.cursors = cursors;
    }

    fn commit(self) -> (done: Result<(), Error>) {
        proof {
            use_type_invariant(&self);
        }
        let InMemoryTransaction { store, events, cursors } = self;
        store.log.append(&events);
        store.progress.merge(&cursors);
        Ok(())
    }

    /// This backend has no rollback to offer and says so. The writes of the
    /// transaction are gone with it all the same.
    fn rollback(self) -> (done: Result<(), Error>) {
        Err(Error::RollbackUnsupported)
    }
}

impl<'p, 'a> Connection<'p, 'a> for InMemoryConnection<'p> {
    type Transaction = InMemoryTransaction<'a>;

    /// A transaction in memory can always be started.
    open spec fn starts() -> bool {
        true
    }

    fn start_transaction(&'a mut self) -> (transaction: Result<Self::Transaction, Error>) {
        InMemoryConnection::start_transaction(self)
    }
}

impl<'p> Persistence<'p> for InMemoryPersistence {
    type Connection = InMemoryConnection<'p>;

    open spec fn state(&self) -> StoreState {
        self@
    }

    /// A store in memory can always be reached.
    open spec fn connects() -> bool {
        true
    }

    fn get_connection(&'p mut self) -> (connection: Result<Self::Connection, Error>) {
        Ok(InMemoryConnection { store: &mut self.store })
    }
}

} // verus!
