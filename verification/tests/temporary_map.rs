use hikari::temporary_map::TemporaryMap;
use std::collections::HashSet;

fn set_of<'a>(items: &[&'a str]) -> HashSet<&'a str> {
    items.iter().copied().collect()
}

#[test]
fn frame_update() {
    let mut map = TemporaryMap::<_, _, 4>::new();
    map.insert(1, "Foo");
    map.insert(2, "Bar");

    for _ in 0..120 {
        map.new_frame_taking(0);
    }
}

#[test]
fn auto_remove() {
    let mut map = TemporaryMap::<_, _, 4>::new();
    map.insert(1, "Foo");
    map.insert(2, "Bar");

    assert!(map.new_frame_taking(1).first() == None);
    assert!(map.new_frame_taking(1).first() == None);
    assert!(map.new_frame_taking(1).first() == None);
    assert!(map.new_frame().into_iter().collect::<HashSet<&str>>() == set_of(&["Foo", "Bar"]));
    assert!(map.new_frame_taking(1).first() == None);
}

#[test]
fn keep() {
    let values = ["Foo", "Bar", "Lorem", "Ipsum"];
    let mut map = TemporaryMap::<_, _, 4>::new();

    for (ix, &value) in values.iter().enumerate() {
        map.insert(ix, value);
    }

    assert!(map.new_frame_taking(1).first() == None);
    map.get(&0);
    assert!(map.new_frame_taking(1).first() == None);
    assert!(map.new_frame_taking(1).first() == None);
    assert!(map.new_frame().into_iter().collect::<HashSet<&str>>() == set_of(&["Bar", "Lorem", "Ipsum"]));
    assert!(map.new_frame_taking(1).first() == Some(&"Foo"));
}

#[test]
fn insert_replaces_and_reports_the_old_value() {
    let mut map = TemporaryMap::<u64, &str, 2>::new();
    assert_eq!(map.insert(7, "first"), None);
    assert_eq!(map.insert(7, "second"), Some("first"));
    assert_eq!(map.get(&7), Some(&"second"));
    assert_eq!(map.get(&8), None);
}

#[test]
fn an_entry_lives_exactly_n_frames_after_its_last_use() {
    let mut map = TemporaryMap::<u32, u32, 3>::new();
    map.insert(1, 100);
    assert!(map.new_frame().is_empty());
    assert!(map.new_frame().is_empty());
    assert_eq!(map.new_frame(), vec![100]);
    assert_eq!(map.get(&1), None);
}

#[test]
fn get_mut_changes_the_value_and_counts_as_a_use() {
    let mut map = TemporaryMap::<u32, u32, 2>::new();
    map.insert(1, 10);
    map.insert(2, 20);
    map.new_frame();
    *map.get_mut(&1).unwrap() += 5;
    assert!(map.get_mut(&3).is_none());
    // Key 2 was last used two frames ago and expires; key 1 was just used.
    assert_eq!(map.new_frame(), vec![20]);
    assert_eq!(map.get(&1), Some(&15));
}

#[test]
fn entries_not_taken_from_an_expiring_frame_stay() {
    let mut map = TemporaryMap::<u32, u32, 2>::new();
    map.insert(1, 10);
    map.insert(2, 20);
    assert!(map.new_frame_taking(5).is_empty());
    // Only the oldest of the two expiring entries is taken.
    assert_eq!(map.new_frame_taking(1), vec![10]);
    assert_eq!(map.get(&1), None);
    assert_eq!(map.get(&2), Some(&20));
    // The entry left behind expires again N frames later.
    assert!(map.new_frame().is_empty());
    assert_eq!(map.new_frame(), vec![20]);
}

#[test]
fn dropping_every_expiry_keeps_all_entries() {
    let mut map = TemporaryMap::<u32, u32, 3>::new();
    map.insert(1, 10);
    for _ in 0..7 {
        assert!(map.new_frame_taking(0).is_empty());
    }
    assert_eq!(map.get(&1), Some(&10));
}
