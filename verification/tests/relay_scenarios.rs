use relay::relay::{RecvOutcome, Relay, RelayError};

#[test]
fn single_handle_delivers_in_order() {
    // Submit 1, 2, 3 through one handle, drop it, and watch the consumer
    // observe 1, 2, 3 in that order before terminating.
    let (mut relay, handle) = Relay::<u64>::new();
    assert!(relay.submit(&handle, 1).is_ok());
    assert!(relay.submit(&handle, 2).is_ok());
    assert!(relay.submit(&handle, 3).is_ok());
    relay.drop_handle(handle);
    let observed = relay.drain();
    assert_eq!(observed, vec![1, 2, 3]);
    assert!(relay.is_closed());
}

#[test]
fn two_handles_keep_their_own_order() {
    // Submit A, B through one handle and C, D through another, interleaved.
    // A stays before B, C stays before D, and nothing is lost or doubled.
    let a = 65u64;
    let b = 66u64;
    let c = 67u64;
    let d = 68u64;
    let (mut relay, first) = Relay::<u64>::new();
    let second = relay.clone_handle(&first);
    assert!(relay.submit(&first, a).is_ok());
    assert!(relay.submit(&second, c).is_ok());
    assert!(relay.submit(&first, b).is_ok());
    assert!(relay.submit(&second, d).is_ok());
    relay.drop_handle(first);
    relay.drop_handle(second);
    let observed = relay.drain();
    assert_eq!(observed.len(), 4);
    let pos = |x: u64| observed.iter().position(|&y| y == x).unwrap();
    assert!(pos(a) < pos(b));
    assert!(pos(c) < pos(d));
    assert_eq!(observed, vec![a, c, b, d]);
    assert!(relay.is_closed());
}

#[test]
fn consumer_terminates_once_handles_are_gone() {
    // With every handle dropped and the queue empty, the next receive
    // observes disconnection and the loop is done.
    let (mut relay, handle) = Relay::<u64>::new();
    relay.drop_handle(handle);
    assert!(matches!(relay.recv(), RecvOutcome::Disconnected));
    assert!(relay.is_closed());
    assert!(matches!(relay.recv(), RecvOutcome::Disconnected));
}

#[test]
fn open_relay_reports_empty_not_disconnected() {
    let (mut relay, handle) = Relay::<u64>::new();
    assert!(matches!(relay.recv(), RecvOutcome::Empty));
    assert!(relay.submit(&handle, 9).is_ok());
    assert!(matches!(relay.recv(), RecvOutcome::Received(9)));
    assert!(matches!(relay.recv(), RecvOutcome::Empty));
    relay.drop_handle(handle);
}

#[test]
fn clean_close_drains_nothing_and_stays_closed() {
    // Dropping every handle with an empty queue closes the relay; draining
    // finds nothing and the relay stays closed.
    let (mut relay, handle) = Relay::<u64>::new();
    let straggler = relay.clone_handle(&handle);
    relay.drop_handle(handle);
    relay.drop_handle(straggler);
    let observed = relay.drain();
    assert!(observed.is_empty());
    assert!(relay.is_closed());
    assert!(matches!(relay.recv(), RecvOutcome::Disconnected));
}

#[test]
fn poisoned_relay_loses_queue_and_refuses_submissions() {
    // A processing failure closes the relay abnormally: what was queued is
    // lost, and every later submission fails with ChannelClosed.
    let (mut relay, handle) = Relay::<u64>::new();
    assert!(relay.submit(&handle, 1).is_ok());
    assert!(relay.submit(&handle, 2).is_ok());
    relay.poison();
    assert!(relay.is_closed());
    assert_eq!(relay.submit(&handle, 3), Err(RelayError::ChannelClosed));
    assert!(matches!(relay.recv(), RecvOutcome::Disconnected));
    relay.drop_handle(handle);
}
