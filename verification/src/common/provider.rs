//! The contract between the runtime and a venue connector.

use crate::common::error::Error;
use crate::common::orderbook::Summary;
use vstd::prelude::*;

verus! {

/// One venue's connector: it owns the connection to its venue for as long as
/// the process runs.
///
/// What a connector answers is decided by its venue, so nothing is promised
/// of it. The two `may_` predicates only give the answers a name, so that
/// what is done with all connectors at once can be stated over them. A
/// connector that commits to nothing keeps them as they are: true of every
/// outcome.
pub trait Provider: Sync + Send {
    /// Whether `subscribe` may answer with this outcome.
    open spec fn may_subscribe(&self, outcome: Result<(), Error>) -> bool {
        true
    }

    /// Whether `unsubscribe` may answer with this outcome.
    open spec fn may_unsubscribe(&self, outcome: Result<(), Error>) -> bool {
        true
    }

    /// The venue's name, with which every level of its summaries is tagged.
    fn name(&self) -> &'static str;

    /// Performs the control handshake that snapshots need. Called once.
    fn subscribe(&self) -> (outcome: Result<(), Error>)
        ensures
            self.may_subscribe(outcome),
    ;

    /// Undoes `subscribe`, as far as the connection still allows.
    fn unsubscribe(&self) -> (outcome: Result<(), Error>)
        ensures
            self.may_unsubscribe(outcome),
    ;

    /// Waits for the venue's next snapshot and returns it.
    fn summary(&self) -> Result<Summary, Error>;
}

} // verus!
