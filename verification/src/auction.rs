//! The vocabulary of the auction domain that events carry.

use vstd::prelude::*;

verus! {

/// Identifies an item under auction.
pub type ItemId = String;

/// A borrowed [`ItemId`].
pub type ItemIdRef<'a> = &'a str;

/// A price or a price increment, in the smallest unit of the currency.
pub type Amount = u64;

/// Who placed a bid.
#[derive(Debug, PartialEq, Eq)]
pub enum Bidder {
    /// This service.
    Sniper,
    /// Anyone else.
    Other,
}

/// A bid as the auction house reports it.
#[derive(Debug, PartialEq, Eq)]
pub struct BidDetails {
    pub bidder: Bidder,
    pub price: Amount,
    pub increment: Amount,
}

/// A bid this service wants placed.
#[derive(Debug, PartialEq, Eq)]
pub struct ItemBid {
    pub item: ItemId,
    pub price: Amount,
}

impl Clone for Bidder {
    fn clone(&self) -> (copy: Self)
        ensures
            copy == *self,
    {
        match self {
            Bidder::Sniper => Bidder::Sniper,
            Bidder::Other => Bidder::Other,
        }
    }
}

impl Clone for BidDetails {
    fn clone(&self) -> (copy: Self)
        ensures
            copy == *self,
    {
        BidDetails { bidder: self.bidder.clone(), price: self.price, increment: self.increment }
    }
}

impl Clone for ItemBid {
    fn clone(&self) -> (copy: Self)
        ensures
            copy == *self,
    {
        ItemBid { item: self.item.clone(), price: self.price }
    }
}

} // verus!
