//! The envelope of a Bitstamp snapshot.

use crate::bitstamp::orderbook::OrderBook;
use vstd::prelude::*;

verus! {

/// A snapshot frame of Bitstamp: the book, and the channel and event that
/// the frame names.
#[derive(Debug, PartialEq, Eq)]
pub struct Response {
    data: OrderBook,
    channel: String,
    event: String,
}

impl Response {
    /// The book inside the envelope.
    pub closed spec fn spec_orderbook(&self) -> OrderBook {
        self.data
    }

    /// The channel that the frame names.
    pub closed spec fn spec_channel(&self) -> Seq<char> {
        self.channel@
    }

    /// The event that the frame names.
    pub closed spec fn spec_event(&self) -> Seq<char> {
        self.event@
    }

    /// An envelope of the given parts.
    pub fn new(data: OrderBook, channel: String, event: String) -> (response: Response)
        ensures
            response.spec_orderbook() == data,
            response.spec_channel() == channel@,
            response.spec_event() == event@,
    {
        Response { data, channel, event }
    }

    /// The book inside the envelope.
    pub fn orderbook(&self) -> (book: &OrderBook)
        ensures
            *book == self.spec_orderbook(),
    {
        &self.data
    }

    /// The channel that the frame names.
    pub fn channel(&self) -> (channel: &str)
        ensures
            channel@ == self.spec_channel(),
    {
        self.channel.as_str()
    }

    /// The event that the frame names.
    pub fn event(&self) -> (event: &str)
        ensures
            event@ == self.spec_event(),
    {
        self.event.as_str()
    }
}

} // verus!
