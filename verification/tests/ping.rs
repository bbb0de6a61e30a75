use cch23_challenge::chat::ping::ping_step;
use cch23_challenge::chat::ping::PingAction;
use cch23_challenge::chat::ping::PingEvent;
use cch23_challenge::chat::ping::PingState;
use cch23_challenge::chat::pump::lifecycle_step;
use cch23_challenge::chat::pump::Action;
use cch23_challenge::chat::pump::Event;
use cch23_challenge::chat::pump::Phase;
use cch23_challenge::chat::pump::Side;
use cch23_challenge::chat::pump::after_write;
use cch23_challenge::chat::pump::Flow;

fn frame(text: &str) -> PingEvent {
    PingEvent::Frame(Some(text.to_string()))
}

#[test]
fn serve_then_ping_gives_pong() {
    let (state, action) = ping_step(PingState::Waiting, frame("serve"));
    assert_eq!(state, PingState::Serving);
    assert!(matches!(action, PingAction::Read));
    let (state, action) = ping_step(state, frame("ping"));
    assert_eq!(state, PingState::Serving);
    match action {
        PingAction::Reply(text) => assert_eq!(text, "pong"),
        _ => panic!("no reply to ping"),
    }
}

#[test]
fn ping_before_serve_is_ignored() {
    let (state, action) = ping_step(PingState::Waiting, frame("ping"));
    assert_eq!(state, PingState::Waiting);
    assert!(matches!(action, PingAction::Read));
}

#[test]
fn every_ping_is_answered() {
    let mut state = PingState::Serving;
    for _ in 0..3 {
        let (next, action) = ping_step(state, frame("ping"));
        assert!(matches!(action, PingAction::Reply(_)));
        state = next;
    }
    let (next, action) = ping_step(state, frame("pong"));
    assert_eq!(next, PingState::Serving);
    assert!(matches!(action, PingAction::Read));
    let (next, action) = ping_step(next, frame("serve"));
    assert_eq!(next, PingState::Serving);
    assert!(matches!(action, PingAction::Read));
    let (next, action) = ping_step(next, PingEvent::Frame(None));
    assert_eq!(next, PingState::Serving);
    assert!(matches!(action, PingAction::Read));
}

#[test]
fn waiting_socket_stops_at_the_end() {
    let (_, action) = ping_step(PingState::Waiting, PingEvent::Closed);
    assert!(matches!(action, PingAction::Stop));
    let (_, action) = ping_step(PingState::Waiting, PingEvent::Failed);
    assert!(matches!(action, PingAction::Stop));
    let (state, action) = ping_step(PingState::Waiting, PingEvent::Frame(None));
    assert_eq!(state, PingState::Waiting);
    assert!(matches!(action, PingAction::Read));
}

#[test]
fn serving_socket_goes_back_to_waiting_at_the_end() {
    let (state, action) = ping_step(PingState::Serving, PingEvent::Closed);
    assert_eq!(state, PingState::Waiting);
    assert!(matches!(action, PingAction::Read));
    let (state, action) = ping_step(PingState::Serving, PingEvent::Failed);
    assert_eq!(state, PingState::Waiting);
    assert!(matches!(action, PingAction::Read));
    let (_, action) = ping_step(state, PingEvent::Closed);
    assert!(matches!(action, PingAction::Stop));
}

#[test]
fn connection_runs_from_upgrade_to_end() {
    let (phase, action) = lifecycle_step(Phase::Upgrading, Event::Upgraded);
    assert_eq!((phase, action), (Phase::Active, Action::Start));
    let (phase, action) = lifecycle_step(phase, Event::Stopped(Side::Inbound));
    assert_eq!((phase, action), (Phase::Closing(Side::Outbound), Action::Cancel(Side::Outbound)));
    let (phase, action) = lifecycle_step(phase, Event::Stopped(Side::Inbound));
    assert_eq!((phase, action), (Phase::Closing(Side::Outbound), Action::Nothing));
    let (phase, action) = lifecycle_step(phase, Event::Stopped(Side::Outbound));
    assert_eq!((phase, action), (Phase::Terminated, Action::Release));
    let (phase, action) = lifecycle_step(phase, Event::Stopped(Side::Outbound));
    assert_eq!((phase, action), (Phase::Terminated, Action::Nothing));
}

#[test]
fn outbound_stop_cancels_inbound() {
    let (phase, action) = lifecycle_step(Phase::Active, Event::Stopped(Side::Outbound));
    assert_eq!((phase, action), (Phase::Closing(Side::Inbound), Action::Cancel(Side::Inbound)));
    assert_eq!(Side::Inbound.other(), Side::Outbound);
    assert_eq!(Side::Outbound.other(), Side::Inbound);
}

#[test]
fn events_out_of_place_change_nothing() {
    assert_eq!(
        lifecycle_step(Phase::Upgrading, Event::Stopped(Side::Inbound)),
        (Phase::Upgrading, Action::Nothing)
    );
    assert_eq!(lifecycle_step(Phase::Active, Event::Upgraded), (Phase::Active, Action::Nothing));
    assert_eq!(
        lifecycle_step(Phase::Terminated, Event::Upgraded),
        (Phase::Terminated, Action::Nothing)
    );
}

#[test]
fn failed_write_stops_the_outbound_side() {
    assert_eq!(after_write(true), Flow::Continue);
    assert_eq!(after_write(false), Flow::Stop);
}
