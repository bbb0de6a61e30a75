use cch23_challenge::chat::broadcast::CHANNEL_CAPACITY;
use cch23_challenge::chat::pump::inbound_step;
use cch23_challenge::chat::pump::Flow;
use cch23_challenge::chat::pump::Inbound;
use cch23_challenge::chat::state::AppState;
use cch23_challenge::chat::state::Outbound;
use cch23_challenge::chat::tweet::Tweet;
use cch23_challenge::chat::tweet::TweetInput;

fn input(text: &str) -> TweetInput {
    TweetInput { message: text.to_string() }
}

fn delivered(step: Outbound) -> String {
    match step {
        Outbound::Deliver(text) => text,
        Outbound::Idle => panic!("nothing was waiting"),
        Outbound::Stop => panic!("the connection was over"),
    }
}

#[test]
fn alice_says_hi_to_bob() {
    let mut state = AppState::new();
    let alice = state.connect(1, "alice".to_string());
    let bob = state.connect(1, "bob".to_string());
    assert_eq!(alice.room, bob.room);
    assert_ne!(alice, bob);
    assert!(state.publish(alice, input("hi")));
    let frame = delivered(state.next_outbound(bob));
    assert_eq!(frame, r#"{"user":"alice","message":"hi"}"#);
    assert_eq!(state.get_views(), 1);
    assert!(matches!(state.next_outbound(bob), Outbound::Idle));
    assert_eq!(state.get_views(), 1);
}

#[test]
fn sender_hears_itself() {
    let mut state = AppState::new();
    let alice = state.connect(7, "alice".to_string());
    let bob = state.connect(7, "bob".to_string());
    assert!(state.publish(bob, input("hello")));
    let to_alice = delivered(state.next_outbound(alice));
    let to_bob = delivered(state.next_outbound(bob));
    assert_eq!(to_alice, to_bob);
    assert_eq!(state.get_views(), 2);
}

#[test]
fn oversized_message_is_dropped() {
    let mut state = AppState::new();
    let alice = state.connect(1, "alice".to_string());
    let bob = state.connect(1, "bob".to_string());
    let long = "x".repeat(129);
    assert!(!state.publish(alice, input(&long)));
    assert!(matches!(state.next_outbound(bob), Outbound::Idle));
    assert!(matches!(state.next_outbound(alice), Outbound::Idle));
    assert_eq!(state.get_views(), 0);
}

#[test]
fn message_of_128_bytes_is_published() {
    let mut state = AppState::new();
    let alice = state.connect(1, "alice".to_string());
    let edge = "x".repeat(128);
    assert!(state.publish(alice, input(&edge)));
    let frame = delivered(state.next_outbound(alice));
    assert_eq!(frame, format!(r#"{{"user":"alice","message":"{}"}}"#, edge));
}

#[test]
fn length_is_counted_in_bytes() {
    let mut state = AppState::new();
    let alice = state.connect(1, "alice".to_string());
    let sixty_four = "é".repeat(64);
    let sixty_five = "é".repeat(65);
    assert!(input(&sixty_four).fits());
    assert!(!input(&sixty_five).fits());
    assert!(state.publish(alice, input(&sixty_four)));
    assert!(!state.publish(alice, input(&sixty_five)));
}

#[test]
fn rooms_are_separate() {
    let mut state = AppState::new();
    let alice = state.connect(1, "alice".to_string());
    let carol = state.connect(2, "carol".to_string());
    assert!(state.publish(alice, input("hi")));
    assert!(matches!(state.next_outbound(carol), Outbound::Idle));
    assert!(matches!(state.next_outbound(alice), Outbound::Deliver(_)));
}

#[test]
fn late_subscriber_gets_no_backlog() {
    let mut state = AppState::new();
    let alice = state.connect(1, "alice".to_string());
    assert!(state.publish(alice, input("early")));
    let bob = state.connect(1, "bob".to_string());
    assert!(matches!(state.next_outbound(bob), Outbound::Idle));
    assert!(state.publish(alice, input("late")));
    let frame = delivered(state.next_outbound(bob));
    assert_eq!(frame, r#"{"user":"alice","message":"late"}"#);
}

#[test]
fn messages_arrive_in_publish_order() {
    let mut state = AppState::new();
    let alice = state.connect(3, "alice".to_string());
    let bob = state.connect(3, "bob".to_string());
    assert!(state.publish(alice, input("one")));
    assert!(state.publish(bob, input("two")));
    assert!(state.publish(alice, input("three")));
    assert_eq!(delivered(state.next_outbound(bob)), r#"{"user":"alice","message":"one"}"#);
    assert_eq!(delivered(state.next_outbound(bob)), r#"{"user":"bob","message":"two"}"#);
    assert_eq!(delivered(state.next_outbound(bob)), r#"{"user":"alice","message":"three"}"#);
}

#[test]
fn reset_then_views_is_zero() {
    let mut state = AppState::new();
    let alice = state.connect(1, "alice".to_string());
    assert!(state.publish(alice, input("a")));
    assert!(state.publish(alice, input("b")));
    let _ = state.next_outbound(alice);
    let _ = state.next_outbound(alice);
    assert_eq!(state.get_views(), 2);
    state.reset_views();
    assert_eq!(state.get_views(), 0);
}

#[test]
fn inc_views_adds_one() {
    let mut state = AppState::new();
    assert_eq!(state.get_views(), 0);
    state.inc_views();
    state.inc_views();
    state.inc_views();
    assert_eq!(state.get_views(), 3);
}

#[test]
fn slow_subscriber_falls_behind_and_stops() {
    let mut state = AppState::new();
    let alice = state.connect(1, "alice".to_string());
    let bob = state.connect(1, "bob".to_string());
    for _ in 0..CHANNEL_CAPACITY {
        assert!(state.publish(alice, input("m")));
        assert!(matches!(state.next_outbound(alice), Outbound::Deliver(_)));
    }
    assert!(state.publish(alice, input("one too many")));
    assert!(matches!(state.next_outbound(bob), Outbound::Stop));
    assert_eq!(state.get_views(), CHANNEL_CAPACITY);
}

#[test]
fn disconnected_connection_is_over() {
    let mut state = AppState::new();
    let alice = state.connect(1, "alice".to_string());
    let bob = state.connect(1, "bob".to_string());
    state.disconnect(bob);
    assert!(state.publish(alice, input("hi")));
    assert!(matches!(state.next_outbound(bob), Outbound::Stop));
    assert!(!state.publish(bob, input("ghost")));
    assert_eq!(delivered(state.next_outbound(alice)), r#"{"user":"alice","message":"hi"}"#);
    assert!(matches!(state.next_outbound(alice), Outbound::Idle));
}

#[test]
fn freed_slot_is_taken_by_the_next_connection() {
    let mut state = AppState::new();
    let alice = state.connect(1, "alice".to_string());
    let bob = state.connect(1, "bob".to_string());
    assert_eq!(alice.slot, 0);
    assert_eq!(bob.slot, 1);
    state.disconnect(alice);
    let carol = state.connect(1, "carol".to_string());
    assert_eq!(carol.slot, 0);
    assert!(state.publish(carol, input("hi")));
    assert_eq!(delivered(state.next_outbound(bob)), r#"{"user":"carol","message":"hi"}"#);
}

#[test]
fn unknown_connection_is_over() {
    let mut state = AppState::new();
    let alice = state.connect(1, "alice".to_string());
    let mut stranger = alice;
    stranger.room = 99;
    assert!(matches!(state.next_outbound(stranger), Outbound::Stop));
    assert!(!state.publish(stranger, input("hi")));
    state.disconnect(stranger);
    assert_eq!(state.get_views(), 0);
}

#[test]
fn inbound_side_publishes_ignores_and_stops() {
    let mut state = AppState::new();
    let alice = state.connect(1, "alice".to_string());
    let bob = state.connect(1, "bob".to_string());
    assert_eq!(inbound_step(&mut state, alice, Inbound::Text(None)), Flow::Continue);
    assert_eq!(inbound_step(&mut state, alice, Inbound::NotText), Flow::Continue);
    assert!(matches!(state.next_outbound(bob), Outbound::Idle));
    assert_eq!(inbound_step(&mut state, alice, Inbound::Text(Some(input("hi")))), Flow::Continue);
    assert_eq!(delivered(state.next_outbound(bob)), r#"{"user":"alice","message":"hi"}"#);
    let long = "x".repeat(129);
    assert_eq!(inbound_step(&mut state, alice, Inbound::Text(Some(input(&long)))), Flow::Continue);
    assert!(matches!(state.next_outbound(bob), Outbound::Idle));
    assert_eq!(inbound_step(&mut state, alice, Inbound::Closed), Flow::Stop);
    assert_eq!(inbound_step(&mut state, alice, Inbound::Failed), Flow::Stop);
    assert_eq!(state.get_views(), 1);
}

#[test]
fn tweet_text_is_escaped_json() {
    let tweet = Tweet::new("al\"ice".to_string(), input("line\nbreak \\ é"));
    assert_eq!(tweet.to_string(), "{\"user\":\"al\\\"ice\",\"message\":\"line\\nbreak \\\\ é\"}");
    let parsed: serde_json::Value = serde_json::from_str(&tweet.to_string()).unwrap();
    assert_eq!(parsed["user"].as_str(), Some("al\"ice"));
    assert_eq!(parsed["message"].as_str(), Some("line\nbreak \\ é"));
}

#[test]
fn tweet_new_keeps_both_parts() {
    let tweet = Tweet::new("alice".to_string(), input("hi"));
    assert_eq!(tweet.user, "alice");
    assert_eq!(tweet.message.message, "hi");
    let copy = tweet.clone();
    assert_eq!(copy.user, "alice");
    assert_eq!(copy.message.message, "hi");
}
