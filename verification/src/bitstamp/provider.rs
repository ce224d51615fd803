//! The Bitstamp adapter itself.

use crate::bitstamp::handshake::Action;
use crate::bitstamp::handshake::ActionView;
use crate::bitstamp::handshake::Handshake;
use crate::bitstamp::handshake::READ_FAILED;
use crate::bitstamp::response::Response;
use crate::common::config::ConfigRef;
use crate::common::error::Error;
use crate::common::error::ErrorView;
use crate::common::inbound::Inbound;
use crate::common::inbound::UNEXPECTED;
use crate::common::orderbook::all_valid;
use crate::common::orderbook::snapshot_of;
use crate::common::orderbook::venue_summary;
use crate::common::orderbook::Summary;
use crate::common::orderbook::INVALID_NUMBER;
use vstd::prelude::*;
use vstd::string::StringExecFns;

verus! {

/// The name with which Bitstamp's levels are tagged.
pub const NAME: &'static str = "Bitstamp";

/// The control frame that asks Bitstamp for the order book of a pair.
pub open spec fn subscribe_text(pair: Seq<char>) -> Seq<char> {
    "{\"event\":\"bts:subscribe\",\"data\":{\"channel\":\"order_book_"@ + pair + "\"}}"@
}

/// The control frame that tells Bitstamp to stop sending the order book of
/// a pair.
pub open spec fn unsubscribe_text(pair: Seq<char>) -> Seq<char> {
    "{\"event\":\"bts:unsubscribe\",\"data\":{\"channel\":\"order_book_"@ + pair + "\"}}"@
}

/// The adapter of Bitstamp: what is written to the venue and what is made of
/// the frames it sends, for one configured pair.
pub struct Bitstamp {
    config: ConfigRef,
}

impl Bitstamp {
    /// The trading pair that the adapter was made for.
    pub closed spec fn pair(&self) -> Seq<char> {
        self.config@.pair
    }

    /// The adapter for the pair of this configuration.
    pub fn new(config: ConfigRef) -> (adapter: Bitstamp)
        ensures
            adapter.pair() == config@.pair,
    {
        Bitstamp { config }
    }

    /// The venue's name.
    pub fn name(&self) -> (name: &'static str)
        ensures
            name@ == NAME@,
    {
        NAME
    }

    /// Begins the round trip that subscribes to the order book of the pair:
    /// the first action is to write the subscription frame.
    pub fn subscribe(&self) -> (begin: (Handshake, Action))
        ensures
            begin.0 == Handshake::Writing,
            begin.1@ == ActionView::Write(subscribe_text(self.pair())),
    {
        let mut text =
            "{\"event\":\"bts:subscribe\",\"data\":{\"channel\":\"order_book_".to_owned();
        text.append(self.config.pair());
        text.append("\"}}");
        (Handshake::Writing, Action::Write(text))
    }

    /// Begins the round trip that ends the subscription: the first action is
    /// to write the frame that says so.
    pub fn unsubscribe(&self) -> (begin: (Handshake, Action))
        ensures
            begin.0 == Handshake::Writing,
            begin.1@ == ActionView::Write(unsubscribe_text(self.pair())),
    {
        let mut text =
            "{\"event\":\"bts:unsubscribe\",\"data\":{\"channel\":\"order_book_".to_owned();
        text.append(self.config.pair());
        text.append("\"}}");
        (Handshake::Writing, Action::Write(text))
    }

    /// The venue's summary of what one read produced.
    ///
    /// A read that failed is a connection failure. A frame that is not text,
    /// text that is no envelope, and an envelope with an entry that is not
    /// valid are protocol failures, and no part of the snapshot is returned.
    /// Otherwise the summary holds the levels of the snapshot, in the venue's
    /// order and tagged with the venue's name.
    pub fn summary(&self, inbound: Inbound<Response>) -> (r: Result<Summary, Error>)
        ensures
            match inbound {
                Inbound::Failed => r matches Err(e) && e@ == ErrorView::Connection(READ_FAILED@),
                Inbound::Other => r matches Err(e) && e@ == ErrorView::Protocol(UNEXPECTED@),
                Inbound::Malformed(reason) => r matches Err(e) && e@ == ErrorView::Protocol(
                    reason@,
                ),
                Inbound::Payload(response) => {
                    let book = response.spec_orderbook();
                    if all_valid(book.spec_asks()) && all_valid(book.spec_bids()) {
                        r matches Ok(summary) && summary@ == snapshot_of(
                            NAME@,
                            book.spec_asks(),
                            book.spec_bids(),
                        )
                    } else {
                        r matches Err(e) && e@ == ErrorView::Protocol(INVALID_NUMBER@)
                    }
                },
            },
    {
        match inbound.payload(READ_FAILED) {
            Ok(response) => {
                let book = response.orderbook();
                venue_summary(self.name(), book.asks(), book.bids())
            },
            Err(e) => Err(e),
        }
    }
}

} // verus!
