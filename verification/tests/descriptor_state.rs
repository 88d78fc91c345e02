use hikari::command::descriptor_state::{DescriptorState, ALL_SETS_MASK, PUSH_CONSTANT_SIZE};

#[test]
fn new_state_has_nothing_to_bind() {
    let mut s = DescriptorState::new(0);
    assert_eq!(s.dirty_sets(), 0);
    assert_eq!(s.bindless_set(), 0);
    assert_eq!(s.push_constant_data().len(), PUSH_CONSTANT_SIZE);
    let plan = s.flush(0xf);
    assert_eq!(plan.bindless_set, None);
    assert!(plan.sets.is_empty());
    assert_eq!(plan.push_constant_range, None);
}

#[test]
fn flush_binds_dirty_sets_the_shader_uses() {
    let mut s = DescriptorState::new(0);
    s.set_image(11, 12, 2, 3, 1);
    s.set_buffer(21, 64, 128, 1, 0);
    s.set_buffer(31, 0, 16, 3, 5);
    s.set_bindless(99);
    assert_eq!(s.dirty_sets(), 0b1111);
    // The shader uses sets 0, 1 and 2 only.
    let plan = s.flush(0b0111);
    assert_eq!(plan.bindless_set, Some(99));
    assert_eq!(plan.sets, vec![1, 2]);
    assert_eq!(s.dirty_sets(), 0);
    // Nothing is dirty any more, so a second flush binds nothing.
    let again = s.flush(0xf);
    assert_eq!(again.bindless_set, None);
    assert!(again.sets.is_empty());
}

#[test]
fn bindless_set_can_be_any_index() {
    let mut s = DescriptorState::new(2);
    s.set_image(1, 2, 0, 0, 0);
    s.set_bindless(7);
    assert_eq!(s.dirty_sets(), 0b101);
    let plan = s.flush(ALL_SETS_MASK);
    assert_eq!(plan.bindless_set, Some(7));
    assert_eq!(plan.sets, vec![0]);
}

#[test]
fn push_constants_are_pushed_once() {
    let mut s = DescriptorState::new(0);
    s.push_constants(&[1, 2, 3, 4, 5, 6, 7, 8], 16);
    assert_eq!(&s.push_constant_data()[16..24], &[1, 2, 3, 4, 5, 6, 7, 8]);
    assert_eq!(s.push_constant_data()[15], 0);
    assert_eq!(s.push_constant_data()[24], 0);
    let plan = s.flush(0);
    assert_eq!(plan.push_constant_range, Some((16, 8)));
    assert_eq!(s.flush(0).push_constant_range, None);
    // The bytes stay for later pushes.
    assert_eq!(s.push_constant_data()[16], 1);
}

#[test]
fn reset_unbinds_sets_but_keeps_dirty_mask() {
    let mut s = DescriptorState::new(0);
    s.set_bindless(5);
    s.set_all_dirty();
    s.reset();
    assert_eq!(s.bindless_set(), 0);
    assert_eq!(s.dirty_sets(), ALL_SETS_MASK);
    let plan = s.flush(0b1001);
    assert_eq!(plan.bindless_set, Some(0));
    assert_eq!(plan.sets, vec![3]);
}
