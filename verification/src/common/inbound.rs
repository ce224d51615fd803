//! What a read of a venue's connection hands to its adapter.

use crate::common::error::Error;
use crate::common::error::ErrorView;
use vstd::prelude::*;

verus! {

/// What a frame is called that the protocol has no place for.
pub const UNEXPECTED: &'static str = "unexpected";

/// The outcome of one read of a venue's connection, with the payload of a
/// text frame already decoded into `T`.
#[derive(Debug, Clone, PartialEq, Eq)]
pub enum Inbound<T> {
    /// The read itself failed.
    Failed,
    /// A frame arrived that is not a text frame.
    Other,
    /// A text frame arrived whose payload is not of the shape of `T`; the
    /// decoder's words say why.
    Malformed(String),
    /// A text frame arrived, and this is what it held.
    Payload(T),
}

impl<T> Inbound<T> {
    /// The payload of a read that is to deliver one, or why there is none:
    /// a read that failed is a connection failure under the given
    /// description, a frame that is not text is a protocol failure, and so
    /// is text that could not be decoded, under the decoder's words.
    pub fn payload(self, read_failed: &str) -> (r: Result<T, Error>)
        ensures
            match self {
                Inbound::Failed => r matches Err(e) && e@ == ErrorView::Connection(read_failed@),
                Inbound::Other => r matches Err(e) && e@ == ErrorView::Protocol(UNEXPECTED@),
                Inbound::Malformed(reason) => r matches Err(e) && e@ == ErrorView::Protocol(
                    reason@,
                ),
                Inbound::Payload(payload) => r == Ok::<T, Error>(payload),
            },
    {
        match self {
            Inbound::Failed => Err(Error::Connection(read_failed.to_owned())),
            Inbound::Other => Err(Error::Protocol(UNEXPECTED.to_owned())),
            Inbound::Malformed(reason) => Err(Error::Protocol(reason)),
            Inbound::Payload(payload) => Ok(payload),
        }
    }
}

} // verus!
