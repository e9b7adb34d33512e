use omnitrace::callbacks::CallbackHub;
use omnitrace::sensor::{SensorLoop, Step};

#[test]
fn callbacks_are_selected_by_mask_in_registration_order() {
    let mut hub = CallbackHub::new();
    assert_eq!(hub.add(0b0001), 0);
    assert_eq!(hub.add(0b0110), 1);
    assert_eq!(hub.add(0b0011), 2);
    assert_eq!(hub.add(0), 3);
    assert_eq!(hub.add(u64::MAX), 4);
    assert_eq!(hub.len(), 5);
    assert_eq!(hub.fire(0b0001), vec![0, 2, 4]);
    assert_eq!(hub.fire(0b0010), vec![1, 2, 4]);
    assert_eq!(hub.fire(0b0100), vec![1, 4]);
    assert_eq!(hub.fire(0b1000), vec![4]);
    assert_eq!(hub.fire(0b0111), vec![0, 1, 2, 4]);
    assert_eq!(hub.fire(0), Vec::<usize>::new());
}

#[test]
fn an_empty_hub_calls_nobody() {
    let hub = CallbackHub::new();
    assert_eq!(hub.fire(u64::MAX), Vec::<usize>::new());
}

#[test]
fn results_are_passed_on_only_with_a_channel() {
    let mut hub = CallbackHub::new();
    assert!(!hub.forwards(true));
    assert!(!hub.forwards(false));
    hub.set_result_channel();
    assert!(hub.forwards(true));
    assert!(!hub.forwards(false));
}

#[test]
fn the_loop_ends_when_it_sees_the_cancellation() {
    let mut l = SensorLoop::new();
    assert_eq!(l.wake(false), Step::Poll);
    assert_eq!(l.wake(false), Step::Poll);
    assert_eq!(l.wake(true), Step::Exit);
    // it stays ended, whatever it sees
    assert_eq!(l.wake(false), Step::Exit);
    assert_eq!(l.wake(true), Step::Exit);
}

#[test]
fn a_loop_cancelled_before_its_first_poll_never_polls() {
    let mut l = SensorLoop::new();
    assert_eq!(l.wake(true), Step::Exit);
    assert_eq!(l.wake(false), Step::Exit);
}
