//! The integration with the auction house.

use crate::auction::{Amount, BidDetails, ItemBid, ItemId, ItemIdRef};
use crate::error::Error;
use crate::event_log::DomainEvent;
use crate::persistence::{
    after_commit, Connection, GenericConnection, Persistence, StoreState, Transaction,
};
use crate::service::bidding_engine;
use crate::service::{
    backend_of, failed_on, iteration, next_batch, Backend, IterationOutcome, ServiceControl,
};
use std::time::Duration;
use vstd::prelude::*;

verus! {

/// Something the auction house reported about an item.
#[derive(Debug, PartialEq, Eq)]
pub struct Event {
    pub item: ItemId,
    pub event: EventDetails,
}

/// What happened to the item.
#[derive(Debug, PartialEq, Eq)]
pub enum EventDetails {
    /// A bid was accepted.
    Bid(BidDetails),
    /// The auction is over.
    Closed,
}

impl Clone for EventDetails {
    fn clone(&self) -> (copy: Self)
        ensures
            copy == *self,
    {
        match self {
            EventDetails::Bid(details) => EventDetails::Bid(details.clone()),
            EventDetails::Closed => EventDetails::Closed,
        }
    }
}

impl Clone for Event {
    fn clone(&self) -> (copy: Self)
        ensures
            copy == *self,
    {
        Event { item: self.item.clone(), event: self.event.clone() }
    }
}

/// The auction house as this service talks to it.
///
/// What the auction house answers is its own affair: it may take a bid or
/// refuse it, report an event or none, and answer one call otherwise than
/// the one before. A client may say which answers it gives to which call;
/// one that does not say admits every answer. The service says of each
/// answer that it passes on which call it is the answer to.
pub trait AuctionHouseClient {
    /// Whether `placed` is an answer of the auction house to a bid of
    /// `price` on the item `item_id`.
    open spec fn answers_bid(
        &self,
        item_id: Seq<char>,
        price: Amount,
        placed: Result<(), String>,
    ) -> bool {
        true
    }

    /// Whether `polled` is an answer of the auction house to a poll that
    /// waits no longer than `timeout`.
    open spec fn answers_poll(
        &self,
        timeout: Option<Duration>,
        polled: Result<Option<Event>, String>,
    ) -> bool {
        true
    }

    /// Places a bid of `price` on the item.
    fn place_bid(&self, item_id: ItemIdRef, price: Amount) -> (placed: Result<(), String>)
        ensures
            self.answers_bid(item_id@, price, placed),
    ;

    /// Waits for the next event of the auction house, no longer than
    /// `timeout`, and returns `None` if none came.
    fn poll(&self, timeout: Option<Duration>) -> (polled: Result<Option<Event>, String>)
        ensures
            self.answers_poll(timeout, polled),
    ;
}

/// The name under which the writer's progress through the event log is kept.
pub const WRITER_ID: &'static str = "auction-house-reader";

/// How many seconds the reader waits for the auction house in one iteration.
pub const POLL_SECONDS: u64 = 1;

/// The duration of `secs` whole seconds.
pub uninterp spec fn whole_seconds(secs: u64) -> Duration;

/// `Duration::from_secs` of the standard library, which makes the duration
/// of so many whole seconds: the same number of seconds gives the same
/// duration, and that is all that is claimed of it. The library hands the
/// duration on to the client and never looks into it.
pub assume_specification[ Duration::from_secs ](secs: u64) -> (duration: Duration)
    ensures
        duration == whole_seconds(secs),
;

/// The two workers that connect the auction house to the event log: the
/// reader records what the auction house reports, the writer places the
/// bids that the bidding engine has decided on.
pub struct Service<C: AuctionHouseClient> {
    control: ServiceControl,
    client: C,
}

/// The bid that the writer places with the auction house on reading
/// `event`, if it places any: the bidding engine's bids, and nothing else.
pub open spec fn bid_in(event: DomainEvent) -> Option<ItemBid> {
    match event {
        DomainEvent::BiddingEngine(bidding_engine::Event::Bid(bid)) => Some(bid),
        _ => None,
    }
}

/// Whether the auction house has taken every bid that the events of `batch`
/// hold: each was placed for its item at its price and answered with `Ok`.
pub open spec fn bids_taken<C: AuctionHouseClient>(
    client: &C,
    batch: Seq<crate::event_log::Event>,
) -> bool {
    forall|i: int|
        0 <= i < batch.len() ==> (bid_in((#[trigger] batch[i]).payload) matches Some(bid)
            ==> client.answers_bid(bid.item@, bid.price, Ok(())))
}

/// Whether the auction house has refused, with `message`, the bid that the
/// event at index `k` of `batch` holds, after it had taken every bid before
/// that one.
pub open spec fn bid_refused<C: AuctionHouseClient>(
    client: &C,
    batch: Seq<crate::event_log::Event>,
    k: int,
    message: String,
) -> bool {
    &&& 0 <= k < batch.len()
    &&& bid_in(batch[k].payload) matches Some(bid) && client.answers_bid(
        bid.item@,
        bid.price,
        Err(message),
    )
    &&& bids_taken(client, batch.take(k))
}

/// Computes [`bid_in`].
pub fn bid_to_place(event: &DomainEvent) -> (bid: Option<&ItemBid>)
    ensures
        match bid {
            Some(bid) => bid_in(*event) == Some(*bid),
            None => bid_in(*event) is None,
        },
{
    match event {
        DomainEvent::BiddingEngine(bidding_engine::Event::Bid(bid)) => Some(bid),
        _ => None,
    }
}

/// How the store and the result of an iteration of the reader follow from
/// what its poll of the auction house returned. An event is in the log,
/// committed on its own, unless the log has no sequence left for it, which
/// is an [`Error::AppendFailed`], or the backend fails, which a dependable
/// one never does; no event leaves the store as it is; and a failed poll
/// leaves the store as it is and is an [`Error::HandlerFailed`] with what
/// the poll reported. Whatever fails, the store holds what it held.
pub open spec fn recording(
    backend: Backend,
    before: StoreState,
    after: StoreState,
    polled: Result<Option<Event>, String>,
    recorded: Result<(), Error>,
) -> bool {
    match polled {
        Ok(Some(event)) => match recorded {
            Ok(()) => {
                &&& before.log.len() < u64::MAX
                &&& after == after_commit(
                    before,
                    seq![DomainEvent::AuctionHouse(event)],
                    Map::empty(),
                )
            },
            Err(error) => {
                &&& after == before
                &&& if before.log.len() < u64::MAX {
                    &&& error is BackendUnavailable || error is TransactionConflict
                        || error is CommitFailed
                    &&& !backend.dependable
                } else {
                    error is AppendFailed || ((error is BackendUnavailable
                        || error is TransactionConflict) && !backend.dependable)
                }
            },
        },
        Ok(None) => recorded is Ok && after == before,
        Err(message) => recorded == Err::<(), Error>(Error::HandlerFailed(message)) && after
            == before,
    }
}

/// Records what a poll of the auction house returned, as [`recording`]
/// says, on whatever backend the store has.
pub fn record_polled<'p, P>(persistence: &'p mut P, polled: Result<Option<Event>, String>) -> (recorded:
    Result<(), Error>) where P: Persistence<'p>, for<'a> P::Connection: Connection<'p, 'a>
    ensures
        recording(
            backend_of::<P>(),
            old(persistence).state(),
            final(persistence).state(),
            polled,
            recorded,
        ),
{
    let event = match polled {
        Ok(Some(event)) => event,
        Ok(None) => {
            return Ok(());
        },
        Err(message) => {
            return Err(Error::HandlerFailed(message));
        },
    };
    let mut connection = persistence.get_connection()?;
    let recorded = match connection.start_transaction() {
        Ok(mut transaction) => {
            let events = [DomainEvent::AuctionHouse(event)];
            match crate::event_log::write(&mut transaction, &events) {
                Ok(()) => {
                    assert(transaction.staged_events() == seq![DomainEvent::AuctionHouse(event)]);
                    transaction.commit()
                },
                Err(error) => {
                    proof {
                        transaction.released();
                    }
                    Err(error)
                },
            }
        },
        Err(error) => Err(error),
    };
    proof {
        connection.released();
    }
    recorded
}

impl<C: AuctionHouseClient> Service<C> {
    /// The client that the workers talk to.
    pub closed spec fn spec_client(&self) -> &C {
        &self.client
    }

    /// The control that runs the workers.
    pub closed spec fn spec_control(&self) -> &ServiceControl {
        &self.control
    }

    /// The client that the workers talk to.
    #[verifier::when_used_as_spec(spec_client)]
    pub fn client(&self) -> (client: &C)
        ensures
            client == self.client(),
    {
        &self.client
    }

    /// The control that runs the workers.
    #[verifier::when_used_as_spec(spec_control)]
    pub fn control(&self) -> (control: &ServiceControl)
        ensures
            control == self.control(),
    {
        &self.control
    }

    /// The service whose workers, run by `svc_ctl`, talk to the auction
    /// house through `auction_house_client`.
    pub fn new(svc_ctl: ServiceControl, auction_house_client: C) -> (service: Self)
        ensures
            service.control() == svc_ctl,
            service.client() == auction_house_client,
    {
        Service { control: svc_ctl, client: auction_house_client }
    }

    /// Polls the auction house once, waiting [`POLL_SECONDS`] at most and
    /// never without a limit, and returns what it answered.
    pub fn poll_auction_house(&self) -> (polled: Result<Option<Event>, String>)
        ensures
            self.client().answers_poll(Some(whole_seconds(POLL_SECONDS)), polled),
    {
        self.client.poll(Some(Duration::from_secs(POLL_SECONDS)))
    }

    /// One iteration of the reader: polls the auction house as
    /// [`Service::poll_auction_house`] does and records what the poll
    /// returned, as [`recording`] says.
    pub fn run_reader_iteration<'p, P>(&self, persistence: &'p mut P) -> (recorded: Result<
        (),
        Error,
    >) where P: Persistence<'p>, for<'a> P::Connection: Connection<'p, 'a>
        ensures
            exists|polled: Result<Option<Event>, String>|
                {
                    &&& #[trigger] self.client().answers_poll(
                        Some(whole_seconds(POLL_SECONDS)),
                        polled,
                    )
                    &&& recording(
                        backend_of::<P>(),
                        old(persistence).state(),
                        final(persistence).state(),
                        polled,
                        recorded,
                    )
                },
    {
        let polled = self.poll_auction_house();
        let ghost answer = polled;
        let recorded = record_polled(persistence, polled);
        assert(self.client().answers_poll(Some(whole_seconds(POLL_SECONDS)), answer));
        recorded
    }

    /// What the writer does with one event of the log: it places the bid
    /// that the event holds, for the item and at the price that the bid
    /// names, and passes on what the auction house answered. An event that
    /// holds no bid is none of the writer's business, and no failure.
    pub fn forward(&self, event: &DomainEvent) -> (forwarded: Result<(), String>)
        ensures
            match bid_in(*event) {
                Some(bid) => self.client().answers_bid(bid.item@, bid.price, forwarded),
                None => forwarded is Ok,
            },
    {
        match bid_to_place(event) {
            Some(bid) => self.client.place_bid(bid.item.as_str(), bid.price),
            None => Ok(()),
        }
    }

    /// One iteration of the writer: the event loop of [`WRITER_ID`], which
    /// forwards each event that it reads.
    ///
    /// The writer writes nothing to the store but its own cursor, and moves
    /// that only when the auction house has taken every bid of the batch.
    /// Of its own it fails only on a bid that the auction house has
    /// refused, with what the auction house said, after it had taken the
    /// bids before that one; any other failure is the backend's.
    pub fn run_writer_iteration<'p, P>(&self, persistence: &'p mut P) -> (outcome:
        IterationOutcome) where P: Persistence<'p>, for<'a> P::Connection: Connection<'p, 'a>
        ensures
            iteration(
                backend_of::<P>(),
                old(persistence).state(),
                final(persistence).state(),
                outcome,
                WRITER_ID@,
                self.control().batch_size() as nat,
            ),
            outcome matches IterationOutcome::Applied { cursor, .. } ==> final(persistence).state() == after_commit(
                old(persistence).state(),
                Seq::empty(),
                map![WRITER_ID@ => cursor],
            ),
            outcome is Applied ==> bids_taken(
                self.client(),
                next_batch(old(persistence).state(), WRITER_ID@, self.control().batch_size() as nat),
            ),
            outcome matches IterationOutcome::Failed { error, .. } ==> !(error is ProgressRegression),
            outcome matches IterationOutcome::Failed { error: Error::HandlerFailed(message), .. }
                ==> exists|k: int| #[trigger]
                bid_refused(
                    self.client(),
                    next_batch(
                        old(persistence).state(),
                        WRITER_ID@,
                        self.control().batch_size() as nat,
                    ),
                    k,
                    message,
                ),
    {
        let handler = |
            transaction: &mut <P::Connection as Connection<'p, '_>>::Transaction,
            event: &DomainEvent,
        | -> (handled: Result<(), String>)
            ensures
                *final(transaction) == *old(transaction),
                match bid_in(*event) {
                    Some(bid) => self.client().answers_bid(bid.item@, bid.price, handled),
                    None => handled is Ok,
                },
            { self.forward(event) };
        let outcome = self.control.run_event_loop_iteration(persistence, WRITER_ID, &handler);
        let ghost ended = outcome;
        proof {
            let batch = next_batch(
                old(persistence).state(),
                WRITER_ID@,
                self.control().batch_size() as nat,
            );
            if let IterationOutcome::Failed { error: Error::HandlerFailed(message), .. } = ended {
                let k = choose|k: int|
                    failed_on::<<P::Connection as Connection<'p, 'p>>::Transaction, _>(
                        &handler,
                        batch,
                        k,
                        message,
                    );
                assert(bid_refused(self.client(), batch, k, message));
            }
        }
        outcome
    }
}

} // verus!
