use vulkan_sync::relay::{RelaySemaphoreState, RelaySemaphores};

#[test]
fn first_advance_does_not_wait() {
    let mut relay = RelaySemaphores::new(1, 2);
    let first = relay.advance();
    assert_eq!(first.wait, None);
    assert_eq!(first.signal, 2);
}

#[test]
fn later_advances_wait_on_the_signal_before() {
    let mut relay = RelaySemaphores::new(10, 20);
    let mut before = relay.advance();
    for call in 2..=9 {
        let state = relay.advance();
        assert_eq!(state.wait, Some(before.signal), "call {}", call);
        before = state;
    }
}

#[test]
fn advance_hands_out_the_two_semaphores_in_turn() {
    let mut relay = RelaySemaphores::new(10, 20);
    let states: Vec<RelaySemaphoreState> = (0..4).map(|_| relay.advance()).collect();
    assert_eq!(states[0], RelaySemaphoreState { wait: None, signal: 20 });
    assert_eq!(states[1], RelaySemaphoreState { wait: Some(20), signal: 10 });
    assert_eq!(states[2], RelaySemaphoreState { wait: Some(10), signal: 20 });
    assert_eq!(states[3], RelaySemaphoreState { wait: Some(20), signal: 10 });
}

#[test]
fn advance_swaps_the_pair_and_sets_the_flag() {
    let mut relay = RelaySemaphores::new(7, 8);
    assert!(!relay.should_wait);
    let _ = relay.advance();
    assert_eq!(relay.wait, 8);
    assert_eq!(relay.signal, 7);
    assert!(relay.should_wait);
}

#[test]
fn relay_destroy_names_both_semaphores() {
    let mut relay = RelaySemaphores::new(7, 8);
    assert_eq!(relay.destroy(), vec![7, 8]);
    let _ = relay.advance();
    assert_eq!(relay.destroy(), vec![8, 7]);
}
