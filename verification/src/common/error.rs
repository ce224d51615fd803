//! The failures of a venue connector and of a retrieval.

use vstd::prelude::*;

verus! {

/// Why an operation on a venue, or a retrieval over all venues, failed.
#[derive(Debug, PartialEq, Eq)]
pub enum Error {
    /// The connection could not be opened, or broke while it was read.
    Connection(String),
    /// A control round trip (subscribe or unsubscribe) did not complete.
    Subscription(String),
    /// A frame was not what the venue's protocol allows: not text, not of the
    /// expected shape, or holding what is no finite number or a number less
    /// than zero.
    Protocol(String),
    /// A retrieval over all venues failed; the first venue failure is inside.
    Aggregation(Box<Error>),
}

/// What an [`Error`] holds, as mathematics.
pub ghost enum ErrorView {
    Connection(Seq<char>),
    Subscription(Seq<char>),
    Protocol(Seq<char>),
    Aggregation(Box<ErrorView>),
}

impl ErrorView {
    /// The text of a failure: its own description, or for an aggregation
    /// that of the venue failure it wraps.
    pub open spec fn description(self) -> Seq<char>
        decreases self,
    {
        match self {
            ErrorView::Connection(text) => text,
            ErrorView::Subscription(text) => text,
            ErrorView::Protocol(text) => text,
            ErrorView::Aggregation(cause) => cause.description(),
        }
    }
}

/// What a failure holds, as mathematics: its kind and its text, and for an
/// aggregation what the failure inside it holds.
pub open spec fn view_of(error: Error) -> ErrorView
    decreases error,
{
    match error {
        Error::Connection(text) => ErrorView::Connection(text@),
        Error::Subscription(text) => ErrorView::Subscription(text@),
        Error::Protocol(text) => ErrorView::Protocol(text@),
        Error::Aggregation(cause) => ErrorView::Aggregation(Box::new(view_of(*cause))),
    }
}

impl View for Error {
    type V = ErrorView;

    open spec fn view(&self) -> ErrorView {
        view_of(*self)
    }
}

impl Error {
    /// The text of this failure, as a caller shows it.
    pub fn description(&self) -> (text: String)
        ensures
            text@ == self@.description(),
        decreases self,
    {
        match self {
            Error::Connection(text) => text.clone(),
            Error::Subscription(text) => text.clone(),
            Error::Protocol(text) => text.clone(),
            Error::Aggregation(cause) => cause.description(),
        }
    }
}

} // verus!
