use hikari::frame::FrameState;

#[test]
fn frames_alternate() {
    let mut state = FrameState::new("a", "b");
    assert_eq!(state.current_frame_number(), 1);
    assert_eq!(*state.current_frame(), "b");
    assert_eq!(*state.last_frame(), "a");
    state.update();
    assert_eq!(state.current_frame_number(), 2);
    assert_eq!(*state.current_frame(), "a");
    assert_eq!(*state.last_frame(), "b");
    state.update();
    assert_eq!(*state.current_frame(), "b");
}
