//! The payload of a Bitstamp snapshot.

use crate::common::orderbook::Entry;
use vstd::prelude::*;

verus! {

/// One snapshot of the book as Bitstamp sends it: when it was taken, and the
/// entries of both sides in the venue's order.
#[derive(Debug, PartialEq, Eq)]
pub struct OrderBook {
    timestamp: String,
    microtimestamp: String,
    bids: Vec<Entry>,
    asks: Vec<Entry>,
}

impl OrderBook {
    /// The entries of the ask side.
    pub closed spec fn spec_asks(&self) -> Seq<Entry> {
        self.asks@
    }

    /// The entries of the bid side.
    pub closed spec fn spec_bids(&self) -> Seq<Entry> {
        self.bids@
    }

    /// The second at which the snapshot was taken, as sent.
    pub closed spec fn spec_timestamp(&self) -> Seq<char> {
        self.timestamp@
    }

    /// The microsecond at which the snapshot was taken, as sent.
    pub closed spec fn spec_microtimestamp(&self) -> Seq<char> {
        self.microtimestamp@
    }

    /// A snapshot of the given parts.
    pub fn new(
        timestamp: String,
        microtimestamp: String,
        bids: Vec<Entry>,
        asks: Vec<Entry>,
    ) -> (book: OrderBook)
        ensures
            book.spec_timestamp() == timestamp@,
            book.spec_microtimestamp() == microtimestamp@,
            book.spec_bids() == bids@,
            book.spec_asks() == asks@,
    {
        OrderBook { timestamp, microtimestamp, bids, asks }
    }

    /// The entries of the ask side, in the venue's order.
    pub fn asks(&self) -> (asks: &Vec<Entry>)
        ensures
            asks@ == self.spec_asks(),
    {
        &self.asks
    }

    /// The entries of the bid side, in the venue's order.
    pub fn bids(&self) -> (bids: &Vec<Entry>)
        ensures
            bids@ == self.spec_bids(),
    {
        &self.bids
    }

    /// The second at which the snapshot was taken, as sent.
    pub fn timestamp(&self) -> (timestamp: &str)
        ensures
            timestamp@ == self.spec_timestamp(),
    {
        self.timestamp.as_str()
    }

    /// The microsecond at which the snapshot was taken, as sent.
    pub fn microtimestamp(&self) -> (microtimestamp: &str)
        ensures
            microtimestamp@ == self.spec_microtimestamp(),
    {
        self.microtimestamp.as_str()
    }
}

} // verus!
