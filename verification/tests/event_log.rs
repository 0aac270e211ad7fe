use auction_sniper::auction::{BidDetails, Bidder, ItemBid};
use auction_sniper::error::Error;
use auction_sniper::event_log::{DomainEvent, Event, EventLog};
use auction_sniper::persistence::{
    Connection, GenericConnection, InMemoryPersistence, Persistence, Transaction,
};
use auction_sniper::service::auction_house;
use auction_sniper::service::bidding_engine;

fn price_bid(price: u64) -> DomainEvent {
    DomainEvent::AuctionHouse(auction_house::Event {
        item: String::from("lot-7"),
        event: auction_house::EventDetails::Bid(BidDetails {
            bidder: Bidder::Other,
            price,
            increment: 5,
        }),
    })
}

fn closed() -> DomainEvent {
    DomainEvent::AuctionHouse(auction_house::Event {
        item: String::from("lot-7"),
        event: auction_house::EventDetails::Closed,
    })
}

fn our_bid(price: u64) -> DomainEvent {
    DomainEvent::BiddingEngine(bidding_engine::Event::Bid(ItemBid {
        item: String::from("lot-7"),
        price,
    }))
}

fn commit_events(persistence: &mut InMemoryPersistence, events: &[DomainEvent]) {
    let mut connection = persistence.get_connection().unwrap();
    let mut transaction = connection.start_transaction().unwrap();
    auction_sniper::event_log::write(&mut transaction, events).unwrap();
    transaction.commit().unwrap();
}

fn sequences(events: &[Event]) -> Vec<u64> {
    events.iter().map(|event| event.sequence).collect()
}

#[test]
fn new_log_is_empty() {
    let log = EventLog::new();
    assert_eq!(log.len(), 0);
    assert_eq!(log.read_after(0, 10), Vec::<Event>::new());
}

#[test]
fn events_are_numbered_from_one_in_the_order_written() {
    let mut persistence = InMemoryPersistence::new();
    commit_events(&mut persistence, &[price_bid(10), our_bid(15), closed()]);
    let read = persistence.store().log().read_after(0, 10);
    assert_eq!(
        read,
        vec![
            Event { sequence: 1, payload: price_bid(10) },
            Event { sequence: 2, payload: our_bid(15) },
            Event { sequence: 3, payload: closed() },
        ]
    );
    assert_eq!(persistence.store().log().len(), 3);
}

#[test]
fn numbering_goes_on_across_transactions() {
    let mut persistence = InMemoryPersistence::new();
    commit_events(&mut persistence, &[price_bid(10), price_bid(20)]);
    commit_events(&mut persistence, &[price_bid(30)]);
    commit_events(&mut persistence, &[]);
    commit_events(&mut persistence, &[price_bid(40), price_bid(50)]);
    let read = persistence.store().log().read_after(0, 10);
    assert_eq!(sequences(&read), vec![1, 2, 3, 4, 5]);
    assert_eq!(read[2].payload, price_bid(30));
    assert_eq!(read[4].payload, price_bid(50));
}

#[test]
fn numbering_goes_on_within_a_transaction() {
    let mut persistence = InMemoryPersistence::new();
    commit_events(&mut persistence, &[price_bid(10)]);
    {
        let mut connection = persistence.get_connection().unwrap();
        let mut transaction = connection.start_transaction().unwrap();
        auction_sniper::event_log::write(&mut transaction, &[price_bid(20)]).unwrap();
        auction_sniper::event_log::write(&mut transaction, &[price_bid(30), price_bid(40)])
            .unwrap();
        transaction.commit().unwrap();
    }
    let read = persistence.store().log().read_after(0, 10);
    assert_eq!(sequences(&read), vec![1, 2, 3, 4]);
    assert_eq!(read[1].payload, price_bid(20));
    assert_eq!(read[3].payload, price_bid(40));
}

#[test]
fn read_after_is_strictly_increasing_and_beyond_the_sequence() {
    let mut persistence = InMemoryPersistence::new();
    let prices: Vec<u64> = (1..=20).collect();
    let events: Vec<DomainEvent> = prices.iter().map(|price| price_bid(*price)).collect();
    commit_events(&mut persistence, &events);
    for after in 0..25u64 {
        for max in 0..25usize {
            let read = persistence.store().log().read_after(after, max);
            assert!(read.len() <= max);
            for event in read.iter() {
                assert!(event.sequence > after);
            }
            for pair in read.windows(2) {
                assert!(pair[0].sequence < pair[1].sequence);
            }
        }
    }
}

#[test]
fn read_after_skips_what_was_seen() {
    let mut persistence = InMemoryPersistence::new();
    commit_events(&mut persistence, &[price_bid(10), price_bid(20), price_bid(30), price_bid(40)]);
    let read = persistence.store().log().read_after(2, 10);
    assert_eq!(
        read,
        vec![
            Event { sequence: 3, payload: price_bid(30) },
            Event { sequence: 4, payload: price_bid(40) },
        ]
    );
}

#[test]
fn read_after_returns_no_more_than_max() {
    let mut persistence = InMemoryPersistence::new();
    commit_events(&mut persistence, &[price_bid(10), price_bid(20), price_bid(30), price_bid(40)]);
    let log = persistence.store().log();
    assert_eq!(sequences(&log.read_after(0, 3)), vec![1, 2, 3]);
    assert_eq!(sequences(&log.read_after(1, 2)), vec![2, 3]);
    assert_eq!(sequences(&log.read_after(3, 1)), vec![4]);
    assert_eq!(sequences(&log.read_after(0, 4)), vec![1, 2, 3, 4]);
    assert_eq!(sequences(&log.read_after(0, usize::MAX)), vec![1, 2, 3, 4]);
}

#[test]
fn read_after_with_nothing_new_is_empty_and_no_error() {
    let mut persistence = InMemoryPersistence::new();
    commit_events(&mut persistence, &[price_bid(10), price_bid(20)]);
    let log = persistence.store().log();
    assert_eq!(log.read_after(2, 10), Vec::<Event>::new());
    assert_eq!(log.read_after(3, 10), Vec::<Event>::new());
    assert_eq!(log.read_after(u64::MAX, 10), Vec::<Event>::new());
    assert_eq!(log.read_after(0, 0), Vec::<Event>::new());
}

#[test]
fn reading_changes_nothing() {
    let mut persistence = InMemoryPersistence::new();
    commit_events(&mut persistence, &[price_bid(10), price_bid(20), price_bid(30)]);
    let log = persistence.store().log();
    let first = log.read_after(1, 2);
    let other = log.read_after(0, 1);
    let again = log.read_after(1, 2);
    assert_eq!(first, again);
    assert_eq!(sequences(&other), vec![1]);
    assert_eq!(log.len(), 3);
}

#[test]
fn written_events_show_only_after_commit() {
    let mut persistence = InMemoryPersistence::new();
    commit_events(&mut persistence, &[price_bid(10)]);
    {
        let mut connection = persistence.get_connection().unwrap();
        let mut transaction = connection.start_transaction().unwrap();
        auction_sniper::event_log::write(&mut transaction, &[price_bid(20), closed()]).unwrap();
        assert_eq!(sequences(&transaction.store().log().read_after(0, 10)), vec![1]);
        transaction.commit().unwrap();
        assert_eq!(sequences(&connection.store().log().read_after(0, 10)), vec![1, 2, 3]);
    }
    let mut connection = persistence.get_connection().unwrap();
    assert_eq!(
        connection.store().log().read_after(1, 10),
        vec![
            Event { sequence: 2, payload: price_bid(20) },
            Event { sequence: 3, payload: closed() },
        ]
    );
    let transaction = connection.start_transaction().unwrap();
    assert_eq!(sequences(&transaction.store().log().read_after(0, 10)), vec![1, 2, 3]);
}

#[test]
fn abandoned_transaction_writes_nothing() {
    let mut persistence = InMemoryPersistence::new();
    commit_events(&mut persistence, &[price_bid(10)]);
    {
        let mut connection = persistence.get_connection().unwrap();
        let mut transaction = connection.start_transaction().unwrap();
        auction_sniper::event_log::write(&mut transaction, &[price_bid(20), closed()]).unwrap();
    }
    assert_eq!(sequences(&persistence.store().log().read_after(0, 10)), vec![1]);
    commit_events(&mut persistence, &[price_bid(30)]);
    assert_eq!(
        persistence.store().log().read_after(0, 10),
        vec![
            Event { sequence: 1, payload: price_bid(10) },
            Event { sequence: 2, payload: price_bid(30) },
        ]
    );
}

#[test]
fn rolled_back_transaction_writes_nothing_and_says_unsupported() {
    let mut persistence = InMemoryPersistence::new();
    commit_events(&mut persistence, &[price_bid(10)]);
    {
        let mut connection = persistence.get_connection().unwrap();
        let mut transaction = connection.start_transaction().unwrap();
        auction_sniper::event_log::write(&mut transaction, &[price_bid(20)]).unwrap();
        auction_sniper::progress::advance(&mut transaction, "reader", 1).unwrap();
        assert_eq!(transaction.rollback(), Err(Error::RollbackUnsupported));
    }
    assert_eq!(sequences(&persistence.store().log().read_after(0, 10)), vec![1]);
    assert_eq!(persistence.store().progress().get_progress("reader"), None);
}

#[test]
fn transaction_has_room_for_all_but_what_is_held() {
    let mut persistence = InMemoryPersistence::new();
    commit_events(&mut persistence, &[price_bid(10), price_bid(20)]);
    let mut connection = persistence.get_connection().unwrap();
    let mut transaction = connection.start_transaction().unwrap();
    assert_eq!(transaction.room(), u64::MAX - 2);
    auction_sniper::event_log::write(&mut transaction, &[price_bid(30)]).unwrap();
    assert_eq!(transaction.room(), u64::MAX - 3);
}

#[test]
fn default_store_is_empty() {
    let persistence = InMemoryPersistence::default();
    assert_eq!(persistence.store().log().len(), 0);
    assert_eq!(persistence.store().progress().get_progress("anyone"), None);
}

#[test]
fn handles_read_what_is_durable_and_not_what_is_staged() {
    let mut persistence = InMemoryPersistence::new();
    commit_events(&mut persistence, &[price_bid(10), price_bid(20)]);
    let mut connection = persistence.get_connection().unwrap();
    assert_eq!(sequences(&connection.read_after(0, 10)), vec![1, 2]);
    assert_eq!(sequences(&connection.read_after(1, 10)), vec![2]);
    assert_eq!(connection.get_progress("x"), None);
    {
        let mut transaction = connection.start_transaction().unwrap();
        auction_sniper::event_log::write(&mut transaction, &[closed()]).unwrap();
        auction_sniper::progress::advance(&mut transaction, "x", 2).unwrap();
        assert_eq!(sequences(&transaction.read_after(0, 10)), vec![1, 2]);
        assert_eq!(transaction.read_after(0, 1), vec![Event { sequence: 1, payload: price_bid(10) }]);
        assert_eq!(transaction.get_progress("x"), None);
        assert_eq!(transaction.cursor("x"), Some(2));
        assert_eq!(transaction.commit(), Ok(()));
    }
    assert_eq!(sequences(&connection.read_after(0, 10)), vec![1, 2, 3]);
    assert_eq!(connection.get_progress("x"), Some(2));
}

#[test]
fn one_connection_serves_one_transaction_after_another() {
    let mut persistence = InMemoryPersistence::new();
    {
        let mut connection = persistence.get_connection().unwrap();
        {
            let mut transaction = connection.start_transaction().unwrap();
            auction_sniper::event_log::write(&mut transaction, &[price_bid(10)]).unwrap();
            transaction.commit().unwrap();
        }
        {
            let mut transaction = connection.start_transaction().unwrap();
            auction_sniper::event_log::write(&mut transaction, &[price_bid(20)]).unwrap();
        }
        let mut transaction = connection.start_transaction().unwrap();
        auction_sniper::event_log::write(&mut transaction, &[price_bid(30)]).unwrap();
        transaction.commit().unwrap();
    }
    assert_eq!(
        persistence.store().log().read_after(0, 10),
        vec![
            Event { sequence: 1, payload: price_bid(10) },
            Event { sequence: 2, payload: price_bid(30) },
        ]
    );
}
