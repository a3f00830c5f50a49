use device_simulator::connection::{Event, State};

#[test]
fn start_with_success_reaches_connected() {
    let state = State::default();
    assert_eq!(state, State::Disconnected);
    let state = state.next(Event::Start);
    assert_eq!(state, State::Connecting);
    let state = state.next(Event::Connected);
    assert_eq!(state, State::Subscribing);
    let state = state.next(Event::Subscribed);
    assert_eq!(state, State::Connected);
    assert!(state.is_connected());
}

#[test]
fn failure_while_connecting_reaches_failed() {
    let state = State::Disconnected.next(Event::Start).next(Event::Lost("refused".to_string()));
    assert_eq!(state, State::Failed("refused".to_string()));
    assert!(!state.is_connected());
    assert_eq!(state.to_string(), "Failed (refused)");
    assert_eq!(state.next(Event::Start), State::Connecting);
}

#[test]
fn stop_from_any_state_reaches_disconnected() {
    for state in [
        State::Connecting,
        State::Subscribing,
        State::Connected,
        State::Disconnected,
        State::Failed("x".to_string()),
    ] {
        assert_eq!(state.next(Event::Stop), State::Disconnected);
    }
}

#[test]
fn events_that_a_state_does_not_wait_for_change_nothing() {
    assert_eq!(State::Disconnected.next(Event::Connected), State::Disconnected);
    assert_eq!(State::Disconnected.next(Event::Subscribed), State::Disconnected);
    assert_eq!(State::Connecting.next(Event::Subscribed), State::Connecting);
    assert_eq!(State::Connected.next(Event::Connected), State::Connected);
    assert_eq!(State::Connected.next(Event::Start), State::Connected);
    assert_eq!(State::Subscribing.next(Event::Start), State::Subscribing);
    assert_eq!(
        State::Connected.next(Event::Lost("gone".to_string())),
        State::Failed("gone".to_string())
    );
}

#[test]
fn states_have_labels() {
    assert_eq!(State::Connecting.to_string(), "Connecting");
    assert_eq!(State::Subscribing.to_string(), "Subscribing");
    assert_eq!(State::Connected.to_string(), "Connected");
    assert_eq!(State::Disconnected.to_string(), "Disconnected");
    assert_eq!(State::Failed(String::new()).to_string(), "Failed ()");
    assert_eq!(State::Connected.clone(), State::Connected);
}
