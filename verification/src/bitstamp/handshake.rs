//! The control round trip of Bitstamp: one frame written, one read.
//!
//! The connector owns the connection; this module decides. The connector
//! performs the action it is handed, reports what came of it, and is handed
//! the next action, until the action is to finish.

use crate::common::error::Error;
use crate::common::error::ErrorView;
use crate::common::inbound::Inbound;
use crate::common::inbound::UNEXPECTED;
use vstd::prelude::*;

verus! {

/// What a failed write of the control frame is called.
pub const WRITE_FAILED: &'static str = "Failed to write message";

/// What a failed read is called.
pub const READ_FAILED: &'static str = "Failed to read message";

/// Where a control round trip stands.
#[derive(Debug, Clone, Copy, PartialEq, Eq)]
pub enum Handshake {
    /// The control frame is being written.
    Writing,
    /// The control frame was written; the acknowledgement is being read.
    Reading,
    /// The round trip is over.
    Closed,
}

/// What the connector does next.
#[derive(Debug, PartialEq, Eq)]
pub enum Action {
    /// Write a text frame of this content, and report `Written` or
    /// `WriteFailed`.
    Write(String),
    /// Read one frame, and report it as `Received`.
    Read,
    /// Touch the connection no more: this is the outcome of the round trip.
    Finish(Result<(), Error>),
}

/// What an [`Action`] holds, as mathematics.
pub ghost enum ActionView {
    Write(Seq<char>),
    Read,
    Finish(Result<(), ErrorView>),
}

impl View for Action {
    type V = ActionView;

    open spec fn view(&self) -> ActionView {
        match self {
            Action::Write(text) => ActionView::Write(text@),
            Action::Read => ActionView::Read,
            Action::Finish(Ok(_)) => ActionView::Finish(Ok(())),
            Action::Finish(Err(e)) => ActionView::Finish(Err(e@)),
        }
    }
}

/// What the connector reports.
#[derive(Debug, PartialEq, Eq)]
pub enum Event {
    /// The frame was written.
    Written,
    /// The frame could not be written.
    WriteFailed,
    /// A read ended, with this outcome. The text of a text frame is its
    /// payload.
    Received(Inbound<String>),
}

/// The step of a round trip that an event leads to: where the round trip
/// stands after it, and what the connector does next.
///
/// A write that succeeded is followed by one read. A write that failed ends
/// the round trip with a failure, and nothing is read. A read that failed
/// ends it with a failure; text that could not be decoded ends it with a
/// protocol failure; a text frame, whatever it says, completes it. A frame
/// that is not text, and an event that does not answer the action last
/// handed out, end it with a protocol failure too.
pub open spec fn transition(state: Handshake, event: Event) -> (Handshake, ActionView) {
    match (state, event) {
        (Handshake::Writing, Event::Written) => (Handshake::Reading, ActionView::Read),
        (Handshake::Writing, Event::WriteFailed) => (
            Handshake::Closed,
            ActionView::Finish(Err(ErrorView::Subscription(WRITE_FAILED@))),
        ),
        (Handshake::Reading, Event::Received(Inbound::Payload(_))) => (
            Handshake::Closed,
            ActionView::Finish(Ok(())),
        ),
        (Handshake::Reading, Event::Received(Inbound::Failed)) => (
            Handshake::Closed,
            ActionView::Finish(Err(ErrorView::Subscription(READ_FAILED@))),
        ),
        (Handshake::Reading, Event::Received(Inbound::Malformed(reason))) => (
            Handshake::Closed,
            ActionView::Finish(Err(ErrorView::Protocol(reason@))),
        ),
        _ => (Handshake::Closed, ActionView::Finish(Err(ErrorView::Protocol(UNEXPECTED@)))),
    }
}

/// The actions that a round trip standing at `state` hands out, one for
/// each of the events reported to it in turn.
pub open spec fn actions(state: Handshake, events: Seq<Event>) -> Seq<ActionView>
    decreases events.len(),
{
    if events.len() == 0 {
        Seq::empty()
    } else {
        let (next, action) = transition(state, events.first());
        seq![action] + actions(next, events.drop_first())
    }
}

/// A round trip that is over stays over: whatever is reported to it, it
/// asks for no write and no read.
pub proof fn lemma_closed_is_final(events: Seq<Event>)
    ensures
        actions(Handshake::Closed, events).len() == events.len(),
        forall|i: int|
            0 <= i < events.len() ==> #[trigger] actions(Handshake::Closed, events)[i]
                == ActionView::Finish(Err(ErrorView::Protocol(UNEXPECTED@))),
    decreases events.len(),
{
    if events.len() > 0 {
        lemma_closed_is_final(events.drop_first());
    }
}

/// What holds of every round trip, whatever is reported to it after its
/// control frame was handed out.
///
/// It never asks for a second write. If the write failed, it fails with
/// that and asks for no read, then or later. If the write succeeded, it
/// asks for one read, and for no other after it; if that read failed, it
/// fails with that.
pub proof fn lemma_round_trip(events: Seq<Event>)
    requires
        events.len() > 0,
    ensures
        actions(Handshake::Writing, events).len() == events.len(),
        forall|i: int|
            0 <= i < events.len() ==> !(#[trigger] actions(Handshake::Writing, events)[i]
                is Write),
        forall|i: int|
            1 <= i < events.len() ==> #[trigger] actions(Handshake::Writing, events)[i]
                is Finish,
        events[0] is WriteFailed ==> actions(Handshake::Writing, events)[0]
            == ActionView::Finish(Err(ErrorView::Subscription(WRITE_FAILED@))),
        events[0] is Written ==> actions(Handshake::Writing, events)[0] == ActionView::Read,
        events[0] is Written && events.len() > 1 && events[1] == Event::Received(Inbound::Failed)
            ==> actions(Handshake::Writing, events)[1] == ActionView::Finish(
            Err(ErrorView::Subscription(READ_FAILED@)),
        ),
{
    let first = transition(Handshake::Writing, events[0]);
    let later = events.drop_first();
    if first.0 == Handshake::Closed {
        lemma_closed_is_final(later);
    } else {
        assert(first.0 == Handshake::Reading);
        if later.len() > 0 {
            assert(later[0] == events[1]);
            lemma_closed_is_final(later.drop_first());
            assert(transition(Handshake::Reading, later[0]).0 == Handshake::Closed);
        }
        assert(actions(Handshake::Reading, later).len() == later.len());
        assert forall|i: int| 1 <= i < later.len() implies #[trigger] actions(
            Handshake::Reading,
            later,
        )[i] is Finish by {
            assert(actions(Handshake::Closed, later.drop_first())[i - 1] is Finish);
        }
    }
}

impl Handshake {
    /// The step of the round trip that an event leads to: see
    /// [`transition`].
    pub fn step(self, event: Event) -> (next: (Handshake, Action))
        ensures
            (next.0, next.1@) == transition(self, event),
    {
        match (self, event) {
            (Handshake::Writing, Event::Written) => (Handshake::Reading, Action::Read),
            (Handshake::Writing, Event::WriteFailed) => (
                Handshake::Closed,
                Action::Finish(Err(Error::Subscription(WRITE_FAILED.to_owned()))),
            ),
            (Handshake::Reading, Event::Received(Inbound::Payload(_))) => (
                Handshake::Closed,
                Action::Finish(Ok(())),
            ),
            (Handshake::Reading, Event::Received(Inbound::Failed)) => (
                Handshake::Closed,
                Action::Finish(Err(Error::Subscription(READ_FAILED.to_owned()))),
            ),
            (Handshake::Reading, Event::Received(Inbound::Malformed(reason))) => (
                Handshake::Closed,
                Action::Finish(Err(Error::Protocol(reason))),
            ),
            _ => (Handshake::Closed, Action::Finish(Err(Error::Protocol(UNEXPECTED.to_owned())))),
        }
    }
}

} // verus!
