use hikari::bits::{for_each_bit, for_each_bit_in_range, n_workgroups};

#[test]
fn bits_in_a_range() {
    assert_eq!(for_each_bit_in_range(0b1011_0110, 0..16), vec![1, 2, 4, 5, 7]);
    assert_eq!(for_each_bit_in_range(0b1011_0110, 2..5), vec![2, 4]);
    assert_eq!(for_each_bit_in_range(0xffff_ffff, 30..32), vec![30, 31]);
    assert!(for_each_bit_in_range(0xff, 4..4).is_empty());
}

#[test]
fn all_set_bits() {
    assert_eq!(for_each_bit(0), Vec::<u32>::new());
    assert_eq!(for_each_bit(0b1001), vec![0, 3]);
    assert_eq!(for_each_bit(0x8000_0001), vec![0, 31]);
    assert_eq!(for_each_bit(u32::MAX).len(), 32);
}

#[test]
fn workgroup_counts() {
    assert_eq!(n_workgroups(64, 16), 4);
    assert_eq!(n_workgroups(70, 16), 5);
    assert_eq!(n_workgroups(65, 16), 4);
    assert_eq!(n_workgroups(0, 8), 0);
}
