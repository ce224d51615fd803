//! The Binance adapter: a venue whose subscription is part of the address,
//! and that sends a full snapshot in every frame.
//!
//! The adapter holds no connection. Its connector, which does, connects to
//! the address that the adapter names and hands it what was read.

use crate::common::config::ConfigRef;
use crate::common::error::Error;
use crate::common::error::ErrorView;
use crate::common::inbound::Inbound;
use crate::common::inbound::UNEXPECTED;
use crate::common::orderbook::all_valid;
use crate::common::orderbook::snapshot_of;
use crate::common::orderbook::venue_summary;
use crate::common::orderbook::Entry;
use crate::common::orderbook::Summary;
use crate::common::orderbook::INVALID_NUMBER;
use vstd::prelude::*;
use vstd::string::StringExecFns;

verus! {

/// The name with which Binance's levels are tagged.
pub const NAME: &'static str = "Binance";

/// What a failed read is called.
pub const READ_FAILED: &'static str = "Failed to read";

/// What follows the pair in the name of its depth stream: twenty levels per
/// side, sent every hundred milliseconds.
pub const DEPTH_STREAM: &'static str = "@depth20@100ms";

/// The serialization of the URL that `reference` resolves to against the URL
/// that `base` parses to, or `None` where `base` is no absolute URL or
/// `reference` cannot be resolved against it.
pub uninterp spec fn resolved(base: Seq<char>, reference: Seq<char>) -> Option<Seq<char>>;

/// What an optional string holds, as mathematics.
pub open spec fn text_of(text: Option<String>) -> Option<Seq<char>> {
    match text {
        Some(text) => Some(text@),
        None => None,
    }
}

/// Resolves a reference against a base address.
///
/// Calls `url::Url::parse` on `base` and `url::Url::join` on the outcome, and
/// returns the serialization of the URL that comes of it. The contract only
/// claims that this is a function of the two texts; what the URL standard
/// makes of them is not restated here.
#[verifier::external_body]
fn resolve(base: &str, reference: &str) -> (r: Option<String>)
    ensures
        text_of(r) == resolved(base@, reference@),
{
    match url::Url::parse(base) {
        Ok(base) => match base.join(reference) {
            Ok(url) => Some(String::from(url)),
            Err(_) => None,
        },
        Err(_) => None,
    }
}

/// The reference that names the depth stream of a pair.
pub open spec fn depth_stream(pair: Seq<char>) -> Seq<char> {
    pair + DEPTH_STREAM@
}

/// One snapshot of the book as Binance sends it: the number of the update
/// it reflects, and the entries of both sides in the venue's order.
#[derive(Debug, PartialEq, Eq)]
pub struct Depth {
    last_update_id: u64,
    bids: Vec<Entry>,
    asks: Vec<Entry>,
}

impl Depth {
    /// The number of the last update that the snapshot reflects.
    pub closed spec fn spec_last_update_id(&self) -> u64 {
        self.last_update_id
    }

    /// The entries of the ask side.
    pub closed spec fn spec_asks(&self) -> Seq<Entry> {
        self.asks@
    }

    /// The entries of the bid side.
    pub closed spec fn spec_bids(&self) -> Seq<Entry> {
        self.bids@
    }

    /// A snapshot of the given parts.
    pub fn new(last_update_id: u64, bids: Vec<Entry>, asks: Vec<Entry>) -> (depth: Depth)
        ensures
            depth.spec_last_update_id() == last_update_id,
            depth.spec_bids() == bids@,
            depth.spec_asks() == asks@,
    {
        Depth { last_update_id, bids, asks }
    }

    /// The number of the last update that the snapshot reflects.
    pub fn last_update_id(&self) -> (id: u64)
        ensures
            id == self.spec_last_update_id(),
    {
        self.last_update_id
    }

    /// The entries of the ask side, in the venue's order.
    pub fn asks(&self) -> (asks: &Vec<Entry>)
        ensures
            asks@ == self.spec_asks(),
    {
        &self.asks
    }

    /// The entries of the bid side, in the venue's order.
    pub fn bids(&self) -> (bids: &Vec<Entry>)
        ensures
            bids@ == self.spec_bids(),
    {
        &self.bids
    }
}

/// The adapter of Binance: where its stream is found and what is made of the
/// frames it sends, for one configured pair.
pub struct Binance {
    config: ConfigRef,
}

impl Binance {
    /// The trading pair that the adapter was made for.
    pub closed spec fn pair(&self) -> Seq<char> {
        self.config@.pair
    }

    /// The address under which the venue's streams are found.
    pub closed spec fn base(&self) -> Seq<char> {
        self.config@.binance_url
    }

    /// The adapter for the pair and the address of this configuration.
    pub fn new(config: ConfigRef) -> (adapter: Binance)
        ensures
            adapter.pair() == config@.pair,
            adapter.base() == config@.binance_url,
    {
        Binance { config }
    }

    /// The address to connect to: the depth stream of the pair, resolved
    /// against the configured address. `None` where the two do not make a
    /// URL.
    pub fn endpoint(&self) -> (address: Option<String>)
        ensures
            text_of(address) == resolved(self.base(), depth_stream(self.pair())),
    {
        let mut stream = self.config.pair().to_owned();
        stream.append(DEPTH_STREAM);
        resolve(self.config.binance_url(), stream.as_str())
    }

    /// The venue's name.
    pub fn name(&self) -> (name: &'static str)
        ensures
            name@ == NAME@,
    {
        NAME
    }

    /// Nothing is to be said to the venue before it sends snapshots: the
    /// address says it all.
    pub fn subscribe(&self) -> (r: Result<(), Error>)
        ensures
            r is Ok,
    {
        Ok(())
    }

    /// Nothing is to be said to the venue when snapshots are wanted no more.
    pub fn unsubscribe(&self) -> (r: Result<(), Error>)
        ensures
            r is Ok,
    {
        Ok(())
    }

    /// The venue's summary of what one read produced.
    ///
    /// A read that failed is a connection failure. A frame that is not text,
    /// text that is no snapshot, and a snapshot with an entry that is not
    /// valid are protocol failures, and no part of the snapshot is returned.
    /// Otherwise the summary holds the levels of the snapshot, in the venue's
    /// order and tagged with the venue's name.
    pub fn summary(&self, inbound: Inbound<Depth>) -> (r: Result<Summary, Error>)
        ensures
            match inbound {
                Inbound::Failed => r matches Err(e) && e@ == ErrorView::Connection(READ_FAILED@),
                Inbound::Other => r matches Err(e) && e@ == ErrorView::Protocol(UNEXPECTED@),
                Inbound::Malformed(reason) => r matches Err(e) && e@ == ErrorView::Protocol(
                    reason@,
                ),
                Inbound::Payload(depth) => {
                    if all_valid(depth.spec_asks()) && all_valid(depth.spec_bids()) {
                        r matches Ok(summary) && summary@ == snapshot_of(
                            NAME@,
                            depth.spec_asks(),
                            depth.spec_bids(),
                        )
                    } else {
                        r matches Err(e) && e@ == ErrorView::Protocol(INVALID_NUMBER@)
                    }
                },
            },
    {
        match inbound.payload(READ_FAILED) {
            Ok(depth) => venue_summary(self.name(), depth.asks(), depth.bids()),
            Err(e) => Err(e),
        }
    }
}

} // verus!
