//! The aggregation service: what a request for the book summary is answered
//! with.

use crate::common::config::ConfigRef;
use crate::common::error::Error;
use crate::common::orderbook::Summary;
use crate::runtime::merge::is_merge;
use crate::runtime::merge::merge;
use crate::runtime::providers::is_connected;
use crate::runtime::providers::is_disconnected;
use crate::runtime::providers::Providers;
use std::sync::Arc;
use vstd::prelude::*;

verus! {

/// The service behind the one remote call. It is made once, connected once,
/// and asked any number of times.
pub struct Orderbook {
    config: ConfigRef,
    providers: Providers,
}

impl Orderbook {
    /// How many levels an answer retains per side.
    pub closed spec fn top(&self) -> usize {
        self.config@.top
    }

    /// The connectors that the service reads from.
    pub closed spec fn spec_providers(&self) -> Providers {
        self.providers
    }

    /// The service over these connectors. Nothing is connected yet.
    pub fn new(config: ConfigRef, providers: Providers) -> (service: Orderbook)
        ensures
            service.top() == config@.top,
            service.spec_providers() == providers,
    {
        Orderbook { config, providers }
    }

    /// The connectors that the service reads from.
    pub fn providers(&self) -> (providers: &Providers)
        ensures
            *providers == self.spec_providers(),
    {
        &self.providers
    }

    /// Subscribes every connector; see [`Providers::connect`]. To be called
    /// before the first request is answered.
    pub fn connect(&self) -> (r: Result<(), Error>)
        ensures
            self.spec_providers()@.len() == 0 ==> r is Ok,
            is_connected(self.spec_providers()@, r),
    {
        self.providers.connect()
    }

    /// The answer to one request, given what the retrieval over all venues
    /// came to: the merge of the venues' summaries, or, where the retrieval
    /// failed, the description of its failure and nothing else.
    pub fn book_summary(&self, retrieved: Result<Vec<Summary>, Error>) -> (r: Result<
        Summary,
        String,
    >)
        ensures
            match retrieved {
                Ok(summaries) => r matches Ok(merged) && is_merge(merged, summaries@, self.top()),
                Err(e) => r matches Err(description) && description@ == e@.description(),
            },
    {
        match retrieved {
            Ok(summaries) => Ok(merge(Arc::clone(&self.config), summaries)),
            Err(e) => Err(e.description()),
        }
    }

    /// Ends the service: every connector is unsubscribed, whatever becomes
    /// of the others; see [`Providers::disconnect`]. The service is used up,
    /// so this happens once.
    pub fn disconnect(self) -> (failures: Vec<Error>)
        ensures
            failures@.len() <= self.spec_providers()@.len(),
            is_disconnected(self.spec_providers()@, failures@),
    {
        self.providers.disconnect()
    }
}

} // verus!
