use hikari::debug_message::{message_level, MessageLevel};

#[test]
fn each_single_severity_flag_has_its_level() {
    assert_eq!(message_level(0x1), Some(MessageLevel::Debug));
    assert_eq!(message_level(0x10), Some(MessageLevel::Info));
    assert_eq!(message_level(0x100), Some(MessageLevel::Warn));
    assert_eq!(message_level(0x1000), Some(MessageLevel::Error));
}

#[test]
fn other_severities_are_not_reported() {
    assert_eq!(message_level(0), None);
    assert_eq!(message_level(0x11), None);
    assert_eq!(message_level(0x2), None);
}
