//! What the bidding engine writes to the event log.

use crate::auction::{ItemBid, ItemId};
use vstd::prelude::*;

verus! {

/// A decision of the bidding engine.
#[derive(Debug, PartialEq, Eq)]
pub enum Event {
    /// A bid is to be placed with the auction house.
    Bid(ItemBid),
    /// The engine has stopped bidding on an item.
    GaveUp(ItemId),
}

impl Clone for Event {
    fn clone(&self) -> (copy: Self)
        ensures
            copy == *self,
    {
        match self {
            Event::Bid(bid) => Event::Bid(bid.clone()),
            Event::GaveUp(item) => Event::GaveUp(item.clone()),
        }
    }
}

} // verus!
