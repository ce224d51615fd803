//! The set of venue connectors and what is done with all of them at once.

use crate::common::error::Error;
use crate::common::orderbook::Summary;
use crate::common::provider::Provider;
use std::sync::Arc;
use vstd::prelude::*;

verus! {

/// A connector, shared between the requests that read from it.
pub type ProviderRef = Arc<Box<dyn Provider>>;

/// The connectors of all configured venues, in the order in which they were
/// given. That order is the order of every walk over them.
pub struct Providers {
    collection: Vec<ProviderRef>,
}

/// The index of the first fetch that failed, if one did.
pub open spec fn first_failure(outcomes: Seq<Result<Summary, Error>>) -> Option<int>
    decreases outcomes.len(),
{
    if outcomes.len() == 0 {
        None
    } else {
        match first_failure(outcomes.drop_last()) {
            Some(i) => Some(i),
            None => if outcomes.last() is Err {
                Some(outcomes.len() - 1)
            } else {
                None
            },
        }
    }
}

/// The summaries of fetches that all succeeded, in their order.
pub open spec fn fetched(outcomes: Seq<Result<Summary, Error>>) -> Seq<Summary> {
    outcomes.map_values(|outcome: Result<Summary, Error>| outcome->Ok_0)
}

/// The first failure is a failure, and every fetch before it succeeded;
/// where there is none, every fetch succeeded.
pub proof fn lemma_first_failure(outcomes: Seq<Result<Summary, Error>>)
    ensures
        match first_failure(outcomes) {
            Some(i) => 0 <= i < outcomes.len() && outcomes[i] is Err && forall|j: int|
                0 <= j < i ==> #[trigger] outcomes[j] is Ok,
            None => forall|j: int| 0 <= j < outcomes.len() ==> #[trigger] outcomes[j] is Ok,
        },
    decreases outcomes.len(),
{
    if outcomes.len() > 0 {
        let earlier = outcomes.drop_last();
        lemma_first_failure(earlier);
        assert forall|j: int| 0 <= j < earlier.len() implies earlier[j] == outcomes[j] by {}
        match first_failure(earlier) {
            Some(i) => {
                assert(outcomes[i] == earlier[i]);
                assert forall|j: int| 0 <= j < i implies #[trigger] outcomes[j] is Ok by {
                    assert(earlier[j] is Ok);
                }
            },
            None => {
                if outcomes.last() is Err {
                    assert forall|j: int| 0 <= j < outcomes.len() - 1 implies #[trigger] outcomes[j]
                        is Ok by {
                        assert(earlier[j] is Ok);
                    }
                } else {
                    assert forall|j: int| 0 <= j < outcomes.len() implies #[trigger] outcomes[j]
                        is Ok by {
                        if j < earlier.len() {
                            assert(earlier[j] is Ok);
                        }
                    }
                }
            },
        }
    }
}

/// A failure found among the first `n` outcomes is the first failure of
/// all of them.
pub proof fn lemma_first_failure_extends(outcomes: Seq<Result<Summary, Error>>, n: int)
    requires
        0 <= n <= outcomes.len(),
        first_failure(outcomes.take(n)) is Some,
    ensures
        first_failure(outcomes) == first_failure(outcomes.take(n)),
    decreases outcomes.len() - n,
{
    if n < outcomes.len() {
        assert(outcomes.take(n + 1).drop_last() == outcomes.take(n));
        lemma_first_failure_extends(outcomes, n + 1);
    } else {
        assert(outcomes.take(n) == outcomes);
    }
}

/// Whether each of the first `n` connectors may answer `subscribe` with
/// success.
pub open spec fn subscribed(collection: Seq<ProviderRef>, n: int) -> bool {
    forall|j: int| 0 <= j < n ==> #[trigger] collection[j].may_subscribe(Ok(()))
}

/// Whether the outcomes are one per connector, in connector order, each an
/// answer that its connector may give to `unsubscribe`.
pub open spec fn unsubscribed(
    collection: Seq<ProviderRef>,
    outcomes: Seq<Result<(), Error>>,
) -> bool {
    &&& outcomes.len() == collection.len()
    &&& forall|j: int|
        0 <= j < collection.len() ==> #[trigger] collection[j].may_unsubscribe(outcomes[j])
}

/// The failures among the outcomes, in their order.
pub open spec fn failures_of(outcomes: Seq<Result<(), Error>>) -> Seq<Error>
    decreases outcomes.len(),
{
    if outcomes.len() == 0 {
        Seq::empty()
    } else {
        let earlier = failures_of(outcomes.drop_last());
        match outcomes.last() {
            Ok(_) => earlier,
            Err(e) => earlier.push(e),
        }
    }
}

/// Whether `r` is what a walk that subscribes and stops at the first
/// failure comes to: success where every connector answered with success,
/// and else the failure that one connector answered with, every connector
/// before it having answered with success.
pub open spec fn is_connected(collection: Seq<ProviderRef>, r: Result<(), Error>) -> bool {
    if r is Ok {
        subscribed(collection, collection.len() as int)
    } else {
        exists|i: int|
            0 <= i < collection.len() && #[trigger] subscribed(collection, i)
                && collection[i].may_subscribe(r)
    }
}

/// Whether `failures` are what a walk that unsubscribes every connector
/// meets: the failures among the answers of all connectors, in connector
/// order.
pub open spec fn is_disconnected(collection: Seq<ProviderRef>, failures: Seq<Error>) -> bool {
    exists|outcomes: Seq<Result<(), Error>>| #[trigger]
        unsubscribed(collection, outcomes) && failures == failures_of(outcomes)
}

impl Providers {
    /// The connectors that the walks go over.
    pub closed spec fn view(&self) -> Seq<ProviderRef> {
        self.collection@
    }

    /// Holds the given connectors, in the given order. None of them is
    /// touched.
    pub fn new(collection: Vec<ProviderRef>) -> (providers: Providers)
        ensures
            providers@ == collection@,
    {
        Providers { collection }
    }

    /// The number of connectors.
    pub fn len(&self) -> (len: usize)
        ensures
            len == self@.len(),
    {
        self.collection.len()
    }

    /// Another handle on the connector at `index`, for a fetch that runs on
    /// its own.
    pub fn get(&self, index: usize) -> (provider: Option<ProviderRef>)
        ensures
            provider is Some <==> index < self@.len(),
            provider is Some ==> provider->Some_0 == self@[index as int],
    {
        if index < self.collection.len() {
            Some(Arc::clone(&self.collection[index]))
        } else {
            None
        }
    }

    /// Subscribes every connector in turn and stops at the first that fails:
    /// the connectors after it are not touched, those before it stay
    /// subscribed. With no connector there is nothing to fail.
    ///
    /// Success means that every connector answered with success. A failure
    /// is the answer of one connector, before which every connector answered
    /// with success.
    pub fn connect(&self) -> (r: Result<(), Error>)
        ensures
            self@.len() == 0 ==> r is Ok,
            is_connected(self@, r),
    {
        let mut i: usize = 0;
        while i < self.collection.len()
            invariant
                i <= self.collection@.len(),
                subscribed(self.collection@, i as int),
            decreases self.collection@.len() - i,
        {
            let outcome = self.collection[i].subscribe();
            proof {
                if outcome is Ok {
                    assert(outcome->Ok_0 == ());
                }
            }
            if let Err(e) = outcome {
                proof {
                    assert(outcome == Err::<(), Error>(e));
                    assert(subscribed(self@, i as int));
                }
                return Err(e);
            }
            i += 1;
        }
        Ok(())
    }

    /// Turns the outcomes of one fetch per connector, in connector order,
    /// into the outcome of the retrieval: all summaries in that order where
    /// every fetch succeeded, and else the first failure, wrapped, without
    /// any summary.
    pub fn retrieve(outcomes: Vec<Result<Summary, Error>>) -> (r: Result<Vec<Summary>, Error>)
        ensures
            r is Ok <==> forall|i: int| 0 <= i < outcomes@.len() ==> #[trigger] outcomes@[i] is Ok,
            r is Ok <==> first_failure(outcomes@) is None,
            r matches Ok(summaries) ==> summaries@ == fetched(outcomes@),
            r matches Err(e) ==> e == Error::Aggregation(
                Box::new(outcomes@[first_failure(outcomes@)->Some_0]->Err_0),
            ),
    {
        let ghost given = outcomes@;
        let mut summaries: Vec<Summary> = Vec::new();
        proof {
            lemma_first_failure(given);
        }
        for outcome in it: outcomes
            invariant
                it.seq() == given,
                first_failure(given.take(it.index() as int)) is None,
                summaries@ == fetched(given.take(it.index() as int)),
        {
            proof {
                let done = given.take(it.index() as int);
                let next = given.take(it.index() + 1);
                assert(next.drop_last() == done);
                assert(next.last() == outcome);
                assert(next == done.push(outcome));
                done.lemma_push_map_commute(
                    |outcome: Result<Summary, Error>| outcome->Ok_0,
                    outcome,
                );
                lemma_first_failure(next);
            }
            match outcome {
                Ok(summary) => {
                    summaries.push(summary);
                },
                Err(e) => {
                    proof {
                        lemma_first_failure_extends(given, it.index() + 1);
                    }
                    return Err(Error::Aggregation(Box::new(e)));
                },
            }
        }
        proof {
            assert(given.take(given.len() as int) == given);
        }
        Ok(summaries)
    }

    /// Unsubscribes every connector in turn, whatever became of those before
    /// it, and returns the failures met on the way, in connector order. A
    /// failure stops nothing and is not passed on as one.
    ///
    /// The failures returned are those among the answers of all connectors.
    pub fn disconnect(&self) -> (failures: Vec<Error>)
        ensures
            failures@.len() <= self@.len(),
            is_disconnected(self@, failures@),
    {
        let mut failures: Vec<Error> = Vec::new();
        let ghost mut outcomes: Seq<Result<(), Error>> = Seq::empty();
        let mut i: usize = 0;
        while i < self.collection.len()
            invariant
                i <= self.collection@.len(),
                failures@.len() <= i,
                unsubscribed(self.collection@.take(i as int), outcomes),
                failures@ == failures_of(outcomes),
            decreases self.collection@.len() - i,
        {
            let outcome = self.collection[i].unsubscribe();
            proof {
                let longer = outcomes.push(outcome);
                assert(longer.drop_last() == outcomes);
                assert forall|j: int| 0 <= j < i + 1 implies #[trigger] self.collection@.take(
                    i + 1,
                )[j].may_unsubscribe(longer[j]) by {
                    if j < i {
                        assert(self.collection@.take(i as int)[j].may_unsubscribe(outcomes[j]));
                    }
                }
                outcomes = longer;
            }
            if let Err(e) = outcome {
                failures.push(e);
            }
            i += 1;
        }
        proof {
            assert(self.collection@.take(i as int) == self.collection@);
            assert(unsubscribed(self@, outcomes));
        }
        failures
    }
}

} // verus!
