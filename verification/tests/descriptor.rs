use hikari::hash::HashWord;
use hikari::descriptor::{
    plan_set_writes, BindingState, DescriptorSetCache, DescriptorSetLayout, DescriptorSetLayoutBuilder, DescriptorSetState,
    DescriptorType, SetLookup, WriteInfo, IMAGE_LAYOUT_GENERAL, IMAGE_LAYOUT_SHADER_READ_ONLY_OPTIMAL,
};

const FRAGMENT: u32 = 0x10;
const COMPUTE: u32 = 0x20;

#[test]
fn added_bindings_are_found_again() {
    let mut b = DescriptorSetLayoutBuilder::new();
    b.with_binding(0, DescriptorType::CombinedImageSampler, 2, FRAGMENT);
    b.with_binding(3, DescriptorType::StorageBuffer, 1, COMPUTE);
    assert_eq!(b.binding(0), Some((DescriptorType::CombinedImageSampler, 2, FRAGMENT)));
    assert_eq!(b.binding(3), Some((DescriptorType::StorageBuffer, 1, COMPUTE)));
    assert_eq!(b.binding(1), None);
    assert_eq!(b.binding(15), None);
}

#[test]
fn a_binding_with_no_stage_is_not_found() {
    let mut b = DescriptorSetLayoutBuilder::new();
    b.with_binding(1, DescriptorType::UniformBuffer, 1, 0);
    assert_eq!(b.binding(1), None);
    b.with_binding(1, DescriptorType::UniformBuffer, 4, FRAGMENT);
    assert_eq!(b.binding(1), Some((DescriptorType::UniformBuffer, 4, FRAGMENT)));
}

#[test]
fn layout_masks() {
    let mut b = DescriptorSetLayoutBuilder::new();
    b.with_binding(0, DescriptorType::CombinedImageSampler, 1, FRAGMENT);
    b.with_binding(1, DescriptorType::StorageImage, 1, COMPUTE);
    b.with_binding(2, DescriptorType::UniformBuffer, 1, FRAGMENT);
    b.with_binding(4, DescriptorType::StorageBuffer, 1, COMPUTE);
    let layout = DescriptorSetLayout::new(0xabc, b);
    assert_eq!(layout.raw(), 0xabc);
    assert_eq!(layout.combined_image_sampler_mask(), 0b1);
    assert_eq!(layout.storage_image_mask(), 0b10);
    assert_eq!(layout.uniform_buffer_mask(), 0b100);
    assert_eq!(layout.storage_buffer_mask(), 0b1_0000);
    assert_eq!(layout.all_mask(), 0b1_0111);
    assert_eq!(DescriptorType::StorageBuffer.as_raw(), 7);
}

#[test]
fn pool_sizes_sum_counts_per_kind() {
    let mut b = DescriptorSetLayoutBuilder::new();
    b.with_binding(0, DescriptorType::CombinedImageSampler, 2, FRAGMENT);
    b.with_binding(1, DescriptorType::CombinedImageSampler, 3, FRAGMENT);
    b.with_binding(2, DescriptorType::StorageBuffer, 1, COMPUTE);
    let sizes = b.pool_sizes(1000);
    assert_eq!(sizes, vec![(DescriptorType::CombinedImageSampler, 5000), (DescriptorType::StorageBuffer, 1000)]);
}

#[test]
fn writes_follow_the_layout_and_the_bound_resources() {
    let mut b = DescriptorSetLayoutBuilder::new();
    b.with_binding(0, DescriptorType::CombinedImageSampler, 2, FRAGMENT);
    b.with_binding(1, DescriptorType::StorageImage, 1, COMPUTE);
    b.with_binding(2, DescriptorType::UniformBuffer, 1, FRAGMENT);
    b.with_binding(3, DescriptorType::StorageBuffer, 1, COMPUTE);
    let layout = DescriptorSetLayout::new(1, b);
    let layout_for_state = DescriptorSetLayout::new(1, DescriptorSetLayoutBuilder::new());

    let mut state = DescriptorSetState::new(0, layout_for_state);
    state.set_image(0, 1, 100, 200);
    state.set_image(0, 0, 101, 201);
    state.set_image(1, 0, 300, 0);
    state.set_buffer(2, 0, 0, 64);
    state.set_buffer(3, 500, 16, 32);

    let writes = plan_set_writes(&layout, &state);
    assert_eq!(writes.len(), 4);
    assert_eq!((writes[0].descriptor_type, writes[0].binding, writes[0].array_element), (DescriptorType::CombinedImageSampler, 0, 0));
    assert_eq!(writes[0].info, WriteInfo::Image { image_view: 101, sampler: 201, image_layout: IMAGE_LAYOUT_SHADER_READ_ONLY_OPTIMAL });
    assert_eq!(writes[1].array_element, 1);
    assert_eq!(writes[1].info, WriteInfo::Image { image_view: 100, sampler: 200, image_layout: IMAGE_LAYOUT_SHADER_READ_ONLY_OPTIMAL });
    assert_eq!(writes[2].descriptor_type, DescriptorType::StorageImage);
    assert_eq!(writes[2].info, WriteInfo::Image { image_view: 300, sampler: 0, image_layout: IMAGE_LAYOUT_GENERAL });
    assert_eq!(writes[3].descriptor_type, DescriptorType::StorageBuffer);
    assert_eq!(writes[3].info, WriteInfo::Buffer { buffer: 500, offset: 16, range: 32 });

    state.reset();
    assert!(plan_set_writes(&layout, &state).is_empty());
}

#[test]
fn cached_sets_are_found_reused_and_retired() {
    let mut cache = DescriptorSetCache::new();
    assert_eq!(cache.get(11), SetLookup::Allocate);
    cache.insert_allocated(11, 900);
    assert_eq!(cache.get(11), SetLookup::Cached(900));
    for _ in 0..4 {
        cache.new_frame();
    }
    assert_eq!(cache.get(22), SetLookup::Reused(900));
    assert_eq!(cache.get(22), SetLookup::Cached(900));
    assert_eq!(cache.get(11), SetLookup::Allocate);
}

#[test]
fn layout_bindings_list_declared_bindings_in_order() {
    let mut b = DescriptorSetLayoutBuilder::new();
    b.with_binding(3, DescriptorType::StorageBuffer, 1, COMPUTE);
    b.with_binding(0, DescriptorType::CombinedImageSampler, 2, FRAGMENT);
    assert_eq!(
        b.layout_bindings(),
        vec![
            (0, (DescriptorType::CombinedImageSampler, 2, FRAGMENT)),
            (3, (DescriptorType::StorageBuffer, 1, COMPUTE)),
        ]
    );
    assert!(DescriptorSetLayoutBuilder::new().layout_bindings().is_empty());
}

#[test]
fn key_words_cover_bound_images_then_buffers() {
    let mut b = DescriptorSetLayoutBuilder::new();
    b.with_binding(0, DescriptorType::CombinedImageSampler, 2, FRAGMENT);
    b.with_binding(2, DescriptorType::UniformBuffer, 1, FRAGMENT);
    let layout = DescriptorSetLayout::new(7, b);
    let mut state = DescriptorSetState::new(0, DescriptorSetLayout::new(7, DescriptorSetLayoutBuilder::new()));
    state.set_image(0, 1, 100, 200);
    state.set_buffer(2, 300, 16, 64);
    // Binding 5 is not in the layout, so it does not count.
    state.set_buffer(5, 999, 0, 1);
    assert_eq!(
        state.key_words(&layout),
        vec![
            HashWord::U32(0b10),
            HashWord::U64(100),
            HashWord::U64(200),
            HashWord::U64(300),
            HashWord::U64(16),
            HashWord::U64(64),
        ]
    );
    // The same fields, in the same order, as the image and buffer states'
    // `Hash` impls feed an Fx hasher.
    let mut expected = fxhash::FxHasher::default();
    std::hash::Hash::hash(&0b10u32, &mut expected);
    std::hash::Hash::hash(&(100u64, 200u64), &mut expected);
    std::hash::Hash::hash(&(300u64, 16u64, 64u64), &mut expected);
    assert_eq!(state.hash(&layout), std::hash::Hasher::finish(&expected));
    let mut other = DescriptorSetState::new(0, DescriptorSetLayout::new(7, DescriptorSetLayoutBuilder::new()));
    other.set_image(0, 1, 100, 200);
    other.set_buffer(2, 300, 16, 64);
    assert_eq!(state.hash(&layout), other.hash(&layout));
}

#[test]
fn image_states_compare_last_updated_element() {
    let mut a = BindingState::new();
    let mut b = BindingState::new();
    assert!(a.same_images(&b));
    a.set_image(0, 1, 2);
    assert!(!a.same_images(&b));
    b.set_image(0, 1, 2);
    assert!(a.same_images(&b));
    a.set_image(3, 5, 6);
    b.set_image(3, 5, 6);
    // Only the last updated element is compared.
    a.set_image(0, 9, 9);
    assert!(a.same_images(&b));
    b.set_image(3, 5, 7);
    assert!(!a.same_images(&b));
}

#[test]
fn created_layout_reports_its_bindings() {
    let mut b = DescriptorSetLayoutBuilder::new();
    b.with_binding(1, DescriptorType::StorageImage, 3, COMPUTE);
    let layout = DescriptorSetLayout::new(42, b);
    assert_eq!(layout.binding(1), Some((DescriptorType::StorageImage, 3, COMPUTE)));
    assert_eq!(layout.binding(0), None);
    assert_eq!(layout.binding(9), None);
}
