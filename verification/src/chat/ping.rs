//! The ping socket: once the client has sent `serve`, every `ping` is
//! answered with `pong`.

use vstd::prelude::*;
use crate::text::same_text;

verus! {

/// Whether the client has asked to be served.
#[derive(Clone, Copy, Debug, PartialEq, Eq, Structural)]
pub enum PingState {
    /// Waiting for `serve`.
    Waiting,
    /// Answering `ping`.
    Serving,
}

/// What the socket gave on one read.
pub enum PingEvent {
    /// A frame; its text, if it is a text frame.
    Frame(Option<String>),
    /// The stream is at its end.
    Closed,
    /// The read failed.
    Failed,
}

/// What to do after one read.
pub enum PingAction {
    /// Read the next frame.
    Read,
    /// Send this text, then read the next frame.
    Reply(String),
    /// Leave the socket.
    Stop,
}

/// `PingAction` with the reply taken by its view.
pub enum PingActionView {
    Read,
    Reply(Seq<char>),
    Stop,
}

impl View for PingAction {
    type V = PingActionView;

    open spec fn view(&self) -> PingActionView {
        match self {
            PingAction::Read => PingActionView::Read,
            PingAction::Reply(text) => PingActionView::Reply(text@),
            PingAction::Stop => PingActionView::Stop,
        }
    }
}

/// Whether `event` is a frame whose text is `word`.
pub open spec fn says(event: PingEvent, word: Seq<char>) -> bool {
    event matches PingEvent::Frame(Some(text)) && text@ == word
}

/// The state after `event`. `serve` starts the service. In service, the end
/// of the stream or a failed read sends the socket back to waiting: the
/// next read then decides.
pub open spec fn ping_next(state: PingState, event: PingEvent) -> PingState {
    match state {
        PingState::Waiting => if says(event, "serve"@) {
            PingState::Serving
        } else {
            PingState::Waiting
        },
        PingState::Serving => match event {
            PingEvent::Frame(_) => PingState::Serving,
            PingEvent::Closed => PingState::Waiting,
            PingEvent::Failed => PingState::Waiting,
        },
    }
}

/// What to do after `event` in `state`.
pub open spec fn ping_action(state: PingState, event: PingEvent) -> PingActionView {
    match state {
        PingState::Waiting => match event {
            PingEvent::Frame(_) => PingActionView::Read,
            PingEvent::Closed => PingActionView::Stop,
            PingEvent::Failed => PingActionView::Stop,
        },
        PingState::Serving => if says(event, "ping"@) {
            PingActionView::Reply("pong"@)
        } else {
            PingActionView::Read
        },
    }
}

/// One step of the ping socket.
pub fn ping_step(state: PingState, event: PingEvent) -> (next: (PingState, PingAction))
    ensures
        next.0 == ping_next(state, event),
        next.1@ == ping_action(state, event),
{
    match state {
        PingState::Waiting => match event {
            PingEvent::Frame(Some(text)) => if same_text(text.as_str(), "serve") {
                (PingState::Serving, PingAction::Read)
            } else {
                (PingState::Waiting, PingAction::Read)
            },
            PingEvent::Frame(None) => (PingState::Waiting, PingAction::Read),
            PingEvent::Closed => (PingState::Waiting, PingAction::Stop),
            PingEvent::Failed => (PingState::Waiting, PingAction::Stop),
        },
        PingState::Serving => match event {
            PingEvent::Frame(Some(text)) => if same_text(text.as_str(), "ping") {
                (PingState::Serving, PingAction::Reply("pong".to_owned()))
            } else {
                (PingState::Serving, PingAction::Read)
            },
            PingEvent::Frame(None) => (PingState::Serving, PingAction::Read),
            PingEvent::Closed => (PingState::Waiting, PingAction::Read),
            PingEvent::Failed => (PingState::Waiting, PingAction::Read),
        },
    }
}

} // verus!
