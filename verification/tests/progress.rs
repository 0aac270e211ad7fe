use auction_sniper::error::Error;
use auction_sniper::event_log::DomainEvent;
use auction_sniper::persistence::{Connection, InMemoryPersistence, Persistence, Transaction};
use auction_sniper::progress::{ProgressCursor, ProgressStore};
use auction_sniper::service::auction_house;

fn lot_closed() -> DomainEvent {
    DomainEvent::AuctionHouse(auction_house::Event {
        item: String::from("lot-9"),
        event: auction_house::EventDetails::Closed,
    })
}

fn commit_cursor(persistence: &mut InMemoryPersistence, consumer_id: &str, sequence: u64) {
    let mut connection = persistence.get_connection().unwrap();
    let mut transaction = connection.start_transaction().unwrap();
    auction_sniper::progress::advance(&mut transaction, consumer_id, sequence).unwrap();
    transaction.commit().unwrap();
}

#[test]
fn consumer_that_never_advanced_has_no_progress() {
    let store = ProgressStore::new();
    assert_eq!(store.get_progress("bidding-engine"), None);
    let persistence = InMemoryPersistence::new();
    assert_eq!(persistence.store().progress().get_progress("bidding-engine"), None);
    assert_eq!(persistence.store().progress().get_progress(""), None);
}

#[test]
fn advance_shows_after_commit_and_not_before() {
    let mut persistence = InMemoryPersistence::new();
    {
        let mut connection = persistence.get_connection().unwrap();
        let mut transaction = connection.start_transaction().unwrap();
        assert_eq!(auction_sniper::progress::advance(&mut transaction, "x", 7), Ok(()));
        assert_eq!(transaction.store().progress().get_progress("x"), None);
        assert_eq!(transaction.cursor("x"), Some(7));
        transaction.commit().unwrap();
        assert_eq!(connection.store().progress().get_progress("x"), Some(7));
    }
    assert_eq!(persistence.store().progress().get_progress("x"), Some(7));
    let connection = persistence.get_connection().unwrap();
    assert_eq!(connection.store().progress().get_progress("x"), Some(7));
}

#[test]
fn advance_not_beyond_the_cursor_is_a_regression() {
    let mut persistence = InMemoryPersistence::new();
    commit_cursor(&mut persistence, "x", 5);
    let mut connection = persistence.get_connection().unwrap();
    let mut transaction = connection.start_transaction().unwrap();
    assert_eq!(
        auction_sniper::progress::advance(&mut transaction, "x", 5),
        Err(Error::ProgressRegression)
    );
    assert_eq!(
        auction_sniper::progress::advance(&mut transaction, "x", 4),
        Err(Error::ProgressRegression)
    );
    assert_eq!(
        auction_sniper::progress::advance(&mut transaction, "x", 0),
        Err(Error::ProgressRegression)
    );
    assert_eq!(transaction.cursor("x"), Some(5));
    transaction.commit().unwrap();
    assert_eq!(persistence.store().progress().get_progress("x"), Some(5));
}

#[test]
fn advance_beyond_the_cursor_succeeds() {
    let mut persistence = InMemoryPersistence::new();
    commit_cursor(&mut persistence, "x", 5);
    commit_cursor(&mut persistence, "x", 6);
    assert_eq!(persistence.store().progress().get_progress("x"), Some(6));
    commit_cursor(&mut persistence, "x", u64::MAX);
    assert_eq!(persistence.store().progress().get_progress("x"), Some(u64::MAX));
    let mut connection = persistence.get_connection().unwrap();
    let mut transaction = connection.start_transaction().unwrap();
    assert_eq!(
        auction_sniper::progress::advance(&mut transaction, "x", u64::MAX),
        Err(Error::ProgressRegression)
    );
}

#[test]
fn first_advance_may_go_anywhere() {
    let mut persistence = InMemoryPersistence::new();
    commit_cursor(&mut persistence, "from-zero", 0);
    commit_cursor(&mut persistence, "far", 1_000_000);
    assert_eq!(persistence.store().progress().get_progress("from-zero"), Some(0));
    assert_eq!(persistence.store().progress().get_progress("far"), Some(1_000_000));
}

#[test]
fn advance_within_one_transaction_goes_forward_only() {
    let mut persistence = InMemoryPersistence::new();
    commit_cursor(&mut persistence, "x", 2);
    {
        let mut connection = persistence.get_connection().unwrap();
        let mut transaction = connection.start_transaction().unwrap();
        assert_eq!(auction_sniper::progress::advance(&mut transaction, "x", 10), Ok(()));
        assert_eq!(
            auction_sniper::progress::advance(&mut transaction, "x", 3),
            Err(Error::ProgressRegression)
        );
        assert_eq!(
            auction_sniper::progress::advance(&mut transaction, "x", 10),
            Err(Error::ProgressRegression)
        );
        assert_eq!(auction_sniper::progress::advance(&mut transaction, "x", 11), Ok(()));
        assert_eq!(transaction.cursor("x"), Some(11));
        assert_eq!(transaction.store().progress().get_progress("x"), Some(2));
        transaction.commit().unwrap();
    }
    assert_eq!(persistence.store().progress().get_progress("x"), Some(11));
}

#[test]
fn cursors_of_different_consumers_do_not_touch() {
    let mut persistence = InMemoryPersistence::new();
    commit_cursor(&mut persistence, "x", 3);
    commit_cursor(&mut persistence, "y", 1);
    commit_cursor(&mut persistence, "x", 4);
    {
        let mut connection = persistence.get_connection().unwrap();
        let mut transaction = connection.start_transaction().unwrap();
        auction_sniper::progress::advance(&mut transaction, "y", 2).unwrap();
        auction_sniper::progress::advance(&mut transaction, "z", 9).unwrap();
        assert_eq!(transaction.cursor("x"), Some(4));
        assert_eq!(transaction.cursor("y"), Some(2));
        assert_eq!(transaction.cursor("w"), None);
        transaction.commit().unwrap();
    }
    let progress = persistence.store().progress();
    assert_eq!(progress.get_progress("x"), Some(4));
    assert_eq!(progress.get_progress("y"), Some(2));
    assert_eq!(progress.get_progress("z"), Some(9));
    assert_eq!(progress.get_progress("w"), None);
}

#[test]
fn abandoned_advance_is_forgotten() {
    let mut persistence = InMemoryPersistence::new();
    commit_cursor(&mut persistence, "x", 3);
    {
        let mut connection = persistence.get_connection().unwrap();
        let mut transaction = connection.start_transaction().unwrap();
        auction_sniper::progress::advance(&mut transaction, "x", 8).unwrap();
        auction_sniper::progress::advance(&mut transaction, "y", 8).unwrap();
    }
    assert_eq!(persistence.store().progress().get_progress("x"), Some(3));
    assert_eq!(persistence.store().progress().get_progress("y"), None);
    commit_cursor(&mut persistence, "x", 4);
    assert_eq!(persistence.store().progress().get_progress("x"), Some(4));
}

#[test]
fn events_and_cursor_commit_together() {
    let mut persistence = InMemoryPersistence::new();
    {
        let mut connection = persistence.get_connection().unwrap();
        let mut transaction = connection.start_transaction().unwrap();
        auction_sniper::event_log::write(&mut transaction, &[lot_closed()]).unwrap();
        auction_sniper::progress::advance(&mut transaction, "x", 1).unwrap();
        assert_eq!(transaction.store().log().len(), 0);
        assert_eq!(transaction.store().progress().get_progress("x"), None);
        assert_eq!(transaction.commit(), Ok(()));
    }
    assert_eq!(persistence.store().log().len(), 1);
    assert_eq!(persistence.store().progress().get_progress("x"), Some(1));
}

#[test]
fn cursor_is_a_plain_record() {
    let cursor = ProgressCursor { consumer_id: String::from("x"), last_applied_sequence: 2 };
    assert_eq!(
        cursor,
        ProgressCursor { consumer_id: String::from("x"), last_applied_sequence: 2 }
    );
    assert_ne!(
        cursor,
        ProgressCursor { consumer_id: String::from("x"), last_applied_sequence: 3 }
    );
}
