use hikari::cache_map::{CacheLookup, CacheMap};

#[test]
fn a_miss_then_insert_caches_the_value() {
    let mut cache = CacheMap::new(2);
    assert_eq!(cache.lookup(10), CacheLookup::Miss);
    cache.insert(10, 100);
    assert_eq!(cache.lookup(10), CacheLookup::Hit(100));
    assert!(cache.unused().is_empty());
}

#[test]
fn a_miss_in_a_full_cache_sets_the_least_recent_value_aside() {
    let mut cache = CacheMap::new(2);
    cache.lookup(1);
    cache.insert(1, 11);
    cache.lookup(2);
    cache.insert(2, 22);
    assert_eq!(cache.lookup(1), CacheLookup::Hit(11));
    assert_eq!(cache.lookup(3), CacheLookup::Miss);
    assert_eq!(cache.unused().clone(), vec![22]);
    cache.insert(3, 33);
    assert_eq!(cache.lookup(2), CacheLookup::Miss);
    assert_eq!(cache.lookup(3), CacheLookup::Hit(33));
    assert_eq!(cache.lookup(1), CacheLookup::Hit(11));
    assert_eq!(cache.unused().clone(), vec![22, 11]);
}

#[test]
fn inserting_a_cached_key_replaces_its_value() {
    let mut cache = CacheMap::new(1);
    cache.insert(5, 50);
    cache.insert(5, 51);
    assert_eq!(cache.lookup(5), CacheLookup::Hit(51));
    cache.unused().push(7);
    assert_eq!(cache.unused().len(), 1);
}
