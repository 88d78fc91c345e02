use hikari::delete::{Deleter, DELETION_FRAME_DELAY};

#[test]
fn delete_once() {
    let mut deleter = Deleter::new();
    deleter.request_delete(("image", 20u32, 20u32));

    let due = deleter.new_frame();
    assert!(due.is_empty());
    assert!(!deleter.is_empty());

    let due = deleter.new_frame();
    assert_eq!(due, vec![("image", 20, 20)]);
    assert!(deleter.is_empty());
}

#[test]
fn requests_wait_the_delay_in_order() {
    assert_eq!(DELETION_FRAME_DELAY, 2);
    let mut deleter = Deleter::new();
    deleter.request_delete("a");
    deleter.request_delete("b");
    assert!(deleter.new_frame().is_empty());
    deleter.request_delete("c");
    assert_eq!(deleter.new_frame(), vec!["a", "b"]);
    assert!(!deleter.is_empty());
    assert_eq!(deleter.new_frame(), vec!["c"]);
    assert!(deleter.is_empty());
    assert!(deleter.new_frame().is_empty());
}

#[test]
fn exit_hands_back_everything_waiting() {
    let mut deleter = Deleter::new();
    deleter.request_delete(1);
    deleter.new_frame();
    deleter.request_delete(2);
    assert_eq!(deleter.exit(), vec![1, 2]);
    assert!(deleter.is_empty());
}

#[test]
fn frame_number_counts_frames() {
    let mut d: Deleter<u32> = Deleter::new();
    assert_eq!(d.frame_number(), 0);
    d.new_frame();
    d.new_frame();
    assert_eq!(d.frame_number(), 2);
}
