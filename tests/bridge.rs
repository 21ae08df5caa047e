use rxec::{FutureState, WakeAction};

#[test]
fn pending_then_ready_with_reentrant_wake_delivers_once() {
    let mut st = FutureState::new();
    let mut deliveries = 0;
    let mut outputs: Vec<i32> = Vec::new();
    // The future: `Pending` once, then `Ready(42)`.
    let mut answers = vec![None, Some(42)].into_iter();
    assert_eq!(st.wake(), WakeAction::Poll);
    let mut polls = 0;
    while st.poll_next() {
        polls += 1;
        let answer = answers.next().unwrap();
        if answer.is_none() {
            // The future wakes itself from inside its own poll.
            assert_eq!(st.wake(), WakeAction::Deferred);
        }
        if st.polled(answer.is_some()) {
            deliveries += 1;
            outputs.push(answer.unwrap());
            break;
        }
    }
    assert_eq!(polls, 2);
    assert_eq!(deliveries, 1);
    assert_eq!(outputs, vec![42]);
    assert_eq!(st.wake(), WakeAction::Finished);
}

#[test]
fn pending_without_wake_goes_quiescent() {
    let mut st = FutureState::new();
    assert_eq!(st.wake(), WakeAction::Poll);
    assert!(st.poll_next());
    assert!(!st.polled(false));
    assert!(!st.poll_next());
    // A later wake polls again.
    assert_eq!(st.wake(), WakeAction::Poll);
    assert!(st.poll_next());
    assert!(st.polled(true));
}

#[test]
fn cancelled_bridge_ignores_wakes() {
    let mut st = FutureState::new();
    st.cancel();
    assert_eq!(st.wake(), WakeAction::Finished);
}
