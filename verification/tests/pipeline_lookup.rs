use hikari::cache_map::CacheLookup;
use hikari::command::pipeline_lookup::PipelineLookup;

#[test]
fn pipelines_are_built_once_and_found_again() {
    let mut lookup = PipelineLookup::new(4);
    assert_eq!(lookup.get_graphics_pipeline(100), CacheLookup::Miss);
    lookup.insert_graphics_pipeline(100, 1);
    assert_eq!(lookup.get_graphics_pipeline(100), CacheLookup::Hit(1));
    // The compute cache is separate from the graphics cache.
    assert_eq!(lookup.get_compute_pipeline(100), CacheLookup::Miss);
    lookup.insert_compute_pipeline(100, 2);
    assert_eq!(lookup.get_compute_pipeline(100), CacheLookup::Hit(2));
    assert_eq!(lookup.get_graphics_pipeline(100), CacheLookup::Hit(1));
    assert!(lookup.new_frame().is_empty());
}

#[test]
fn evicted_pipelines_are_destroyed_on_the_next_frame() {
    // Capacity 4 gives each cache room for two pipelines.
    let mut lookup = PipelineLookup::new(4);
    for (key, pipeline) in [(1u64, 10u64), (2, 20)] {
        assert_eq!(lookup.get_graphics_pipeline(key), CacheLookup::Miss);
        lookup.insert_graphics_pipeline(key, pipeline);
    }
    assert_eq!(lookup.get_graphics_pipeline(1), CacheLookup::Hit(10));
    // Key 2 is now the least recently used; a third pipeline pushes it out.
    assert_eq!(lookup.get_graphics_pipeline(3), CacheLookup::Miss);
    lookup.insert_graphics_pipeline(3, 30);
    assert_eq!(lookup.get_compute_pipeline(7), CacheLookup::Miss);
    lookup.insert_compute_pipeline(7, 70);
    assert_eq!(lookup.get_compute_pipeline(8), CacheLookup::Miss);
    lookup.insert_compute_pipeline(8, 80);
    assert_eq!(lookup.get_compute_pipeline(9), CacheLookup::Miss);
    lookup.insert_compute_pipeline(9, 90);
    assert_eq!(lookup.new_frame(), vec![20, 70]);
    assert!(lookup.new_frame().is_empty());
    assert_eq!(lookup.get_graphics_pipeline(2), CacheLookup::Miss);
    assert_eq!(lookup.get_graphics_pipeline(1), CacheLookup::Hit(10));
}
