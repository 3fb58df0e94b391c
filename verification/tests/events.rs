use macro_resolver::events::Event;
use macro_resolver::events::State;

#[test]
fn new_event_is_running_at_its_target() {
    let e: Event<u32> = Event::new(Some(7), 42);
    assert_eq!(e.target(), Some(7));
    assert_eq!(e.current_target(), Some(7));
    assert!(matches!(e.data.state, State::Running));
    assert_eq!(e.data.payload, 42);
}

#[test]
fn stop_propagation_cancels_a_running_event() {
    let mut e: Event<()> = Event::new(None, ());
    e.stop_propagation();
    assert!(matches!(e.data.state, State::Cancelled));
    assert_eq!(e.target(), None);
}

#[test]
fn stop_propagation_keeps_a_non_cancellable_event() {
    let mut e: Event<()> = Event::new(None, ());
    e.data.state = State::RunningNonCancellable;
    e.stop_propagation();
    assert!(matches!(e.data.state, State::RunningNonCancellable));
}
