//! The two directions of a connection, and its life from upgrade to end.
//!
//! Each connection runs an inbound side, which reads client frames and
//! publishes them, and an outbound side, which hands the room's messages to
//! the client. Whichever stops first has the other cancelled.

use vstd::prelude::*;
use crate::chat::state::AppState;
use crate::chat::state::ChatView;
use crate::chat::state::Connection;
use crate::chat::tweet::TweetInput;

verus! {

/// What the inbound side of a connection has read.
pub enum Inbound {
    /// A text frame: the submission that it decodes to, if it decodes.
    Text(Option<TweetInput>),
    /// A frame that is not text.
    NotText,
    /// The stream is at its end.
    Closed,
    /// The read failed.
    Failed,
}

/// Whether a side of a connection goes on.
#[derive(Clone, Copy, Debug, PartialEq, Eq, Structural)]
pub enum Flow {
    Continue,
    Stop,
}

/// The chat after the inbound side of `conn` has read `frame`: a
/// submission is taken, and any other frame leaves the chat as it was.
pub open spec fn after_inbound(chat: ChatView, conn: Connection, frame: Inbound) -> ChatView {
    match frame {
        Inbound::Text(Some(input)) => chat.posted(conn, input@),
        _ => chat,
    }
}

/// Whether the inbound side reads on after `frame`: it does until the
/// stream ends or fails.
pub open spec fn inbound_flow(frame: Inbound) -> Flow {
    match frame {
        Inbound::Text(_) => Flow::Continue,
        Inbound::NotText => Flow::Continue,
        Inbound::Closed => Flow::Stop,
        Inbound::Failed => Flow::Stop,
    }
}

/// One step of the inbound side of `conn`: a decoded submission is
/// published if its text fits and dropped if not, a frame that is not text
/// or does not decode is passed over, and the end of the stream or a failed
/// read stops the side.
pub fn inbound_step(state: &mut AppState, conn: Connection, frame: Inbound) -> (flow: Flow)
    ensures
        final(state)@ == after_inbound(old(state)@, conn, frame),
        flow == inbound_flow(frame),
{
    match frame {
        Inbound::Text(Some(input)) => {
            state.publish(conn, input);
            Flow::Continue
        },
        Inbound::Text(None) => Flow::Continue,
        Inbound::NotText => Flow::Continue,
        Inbound::Closed => Flow::Stop,
        Inbound::Failed => Flow::Stop,
    }
}

/// Whether the outbound side goes on after a write to the client that
/// succeeded (`written`) or failed.
pub fn after_write(written: bool) -> (flow: Flow)
    ensures
        flow == if written {
            Flow::Continue
        } else {
            Flow::Stop
        },
{
    if written {
        Flow::Continue
    } else {
        Flow::Stop
    }
}

/// One of the two sides of a connection.
#[derive(Clone, Copy, Debug, PartialEq, Eq, Structural)]
pub enum Side {
    Inbound,
    Outbound,
}

impl Side {
    /// The opposite side.
    pub open spec fn spec_other(self) -> Side {
        match self {
            Side::Inbound => Side::Outbound,
            Side::Outbound => Side::Inbound,
        }
    }

    /// The opposite side.
    #[verifier::when_used_as_spec(spec_other)]
    pub fn other(self) -> (side: Side)
        ensures
            side == self.spec_other(),
    {
        match self {
            Side::Inbound => Side::Outbound,
            Side::Outbound => Side::Inbound,
        }
    }
}

/// Where a connection stands in its life.
#[derive(Clone, Copy, Debug, PartialEq, Eq, Structural)]
pub enum Phase {
    /// The request has come in; the stream is not up yet.
    Upgrading,
    /// Registered in its room and subscribed; both sides run.
    Active,
    /// One side has stopped; the side named here is being cancelled.
    Closing(Side),
    /// Both sides have stopped.
    Terminated,
}

/// What happens to a connection.
#[derive(Clone, Copy, Debug, PartialEq, Eq, Structural)]
pub enum Event {
    /// The stream is up.
    Upgraded,
    /// This side has stopped, of itself or because it was cancelled.
    Stopped(Side),
}

/// What the runtime does for a connection after an event.
#[derive(Clone, Copy, Debug, PartialEq, Eq, Structural)]
pub enum Action {
    /// Connect to the room and start both sides.
    Start,
    /// Cancel this side.
    Cancel(Side),
    /// Give the subscription back.
    Release,
    /// Nothing.
    Nothing,
}

/// The phase that follows `phase` on `event`. An event that does not belong
/// to the phase leaves it as it is.
pub open spec fn next_phase(phase: Phase, event: Event) -> Phase {
    match (phase, event) {
        (Phase::Upgrading, Event::Upgraded) => Phase::Active,
        (Phase::Active, Event::Stopped(side)) => Phase::Closing(side.other()),
        (Phase::Closing(waiting), Event::Stopped(side)) => if side == waiting {
            Phase::Terminated
        } else {
            phase
        },
        _ => phase,
    }
}

/// What the runtime does when `event` comes in `phase`.
pub open spec fn action_on(phase: Phase, event: Event) -> Action {
    match (phase, event) {
        (Phase::Upgrading, Event::Upgraded) => Action::Start,
        (Phase::Active, Event::Stopped(side)) => Action::Cancel(side.other()),
        (Phase::Closing(waiting), Event::Stopped(side)) => if side == waiting {
            Action::Release
        } else {
            Action::Nothing
        },
        _ => Action::Nothing,
    }
}

/// One step in the life of a connection: the phase that follows, and what
/// the runtime does.
pub fn lifecycle_step(phase: Phase, event: Event) -> (next: (Phase, Action))
    ensures
        next.0 == next_phase(phase, event),
        next.1 == action_on(phase, event),
{
    match phase {
        Phase::Upgrading => match event {
            Event::Upgraded => (Phase::Active, Action::Start),
            Event::Stopped(_) => (phase, Action::Nothing),
        },
        Phase::Active => match event {
            Event::Upgraded => (phase, Action::Nothing),
            Event::Stopped(side) => (Phase::Closing(side.other()), Action::Cancel(side.other())),
        },
        Phase::Closing(waiting) => match event {
            Event::Upgraded => (phase, Action::Nothing),
            Event::Stopped(side) => if side == waiting {
                (Phase::Terminated, Action::Release)
            } else {
                (phase, Action::Nothing)
            },
        },
        Phase::Terminated => (phase, Action::Nothing),
    }
}

/// How far a connection has come: phases only move forward.
pub open spec fn rank(phase: Phase) -> nat {
    match phase {
        Phase::Upgrading => 0,
        Phase::Active => 1,
        Phase::Closing(_) => 2,
        Phase::Terminated => 3,
    }
}

/// A connection never goes back to an earlier phase, moves by one phase at
/// most, and stays terminated once it is.
pub proof fn phases_move_forward(phase: Phase, event: Event)
    ensures
        rank(phase) <= rank(next_phase(phase, event)) <= rank(phase) + 1,
        phase == Phase::Terminated ==> next_phase(phase, event) == Phase::Terminated,
{
}

/// As soon as one side of an active connection stops, the other side is
/// cancelled; the connection ends when that side has stopped too.
pub proof fn first_stop_cancels_the_other(side: Side)
    ensures
        action_on(Phase::Active, Event::Stopped(side)) == Action::Cancel(side.other()),
        next_phase(Phase::Active, Event::Stopped(side)) == Phase::Closing(side.other()),
        next_phase(Phase::Closing(side.other()), Event::Stopped(side.other()))
            == Phase::Terminated,
        action_on(Phase::Closing(side.other()), Event::Stopped(side.other())) == Action::Release,
{
}

} // verus!
