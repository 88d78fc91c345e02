use hikari::bindless::{
    bindless_set_bindings, BindlessHandle, BindlessResource, BindlessResources, BindlessWrite, IndexAllocator,
    BUFFER_USAGE_STORAGE_BUFFER, IMAGE_LAYOUT_GENERAL, IMAGE_LAYOUT_SHADER_READ_ONLY_OPTIMAL, IMAGE_USAGE_SAMPLED,
    IMAGE_USAGE_STORAGE,
};

#[test]
fn fresh_indices_start_at_one() {
    let mut a = IndexAllocator::new();
    assert_eq!(a.allocate(), 1);
    assert_eq!(a.allocate(), 2);
    assert_eq!(a.allocate(), 3);
}

#[test]
fn freed_indices_are_reused_oldest_first() {
    let mut a = IndexAllocator::new();
    let one = a.allocate();
    let two = a.allocate();
    let three = a.allocate();
    a.deallocate(three);
    a.deallocate(one);
    assert_eq!(a.allocate(), three);
    assert_eq!(a.allocate(), one);
    assert_eq!(a.allocate(), 4);
    assert_ne!(two, 4);
}

#[test]
fn handles_carry_their_slot() {
    let h: BindlessHandle<u64> = BindlessHandle::from_raw(7);
    assert_eq!(h.index(), 7);
    let copy = h;
    assert!(copy == h);
    assert!(BindlessHandle::<u64>::from_raw(8) != h);
}

#[test]
fn bindless_kinds_map_to_bindings_and_types() {
    assert_eq!(BindlessResource::CombinedImageSampler.binding(), 0);
    assert_eq!(BindlessResource::StorageBuffer.binding(), 3);
    assert_eq!(BindlessResource::StorageImage.vk_descriptor_type(), 3);
    assert_eq!(BindlessResource::UniformBuffer.vk_descriptor_type(), 6);
    assert_eq!(
        bindless_set_bindings(),
        vec![BindlessResource::CombinedImageSampler, BindlessResource::StorageImage, BindlessResource::StorageBuffer]
    );
}

#[test]
fn image_slots_get_writes_by_usage() {
    let mut r = BindlessResources::new();
    let (a, writes) = r.allocate_image(IMAGE_USAGE_SAMPLED | IMAGE_USAGE_STORAGE);
    assert_eq!(a.index(), 1);
    assert_eq!(
        writes,
        vec![
            BindlessWrite {
                resource: BindlessResource::CombinedImageSampler,
                index: 1,
                image_layout: IMAGE_LAYOUT_SHADER_READ_ONLY_OPTIMAL
            },
            BindlessWrite { resource: BindlessResource::StorageImage, index: 1, image_layout: IMAGE_LAYOUT_GENERAL },
        ]
    );
    let (b, writes) = r.allocate_image(0x1);
    assert_eq!(b.index(), 2);
    assert!(writes.is_empty());
    r.deallocate_image(a);
    let (c, _) = r.allocate_image(IMAGE_USAGE_SAMPLED);
    assert_eq!(c.index(), 1);
}

#[test]
fn buffer_slots_come_from_the_image_allocator() {
    let mut r = BindlessResources::new();
    let (img, _) = r.allocate_image(IMAGE_USAGE_SAMPLED);
    let (buf, write) = r.allocate_buffer(BUFFER_USAGE_STORAGE_BUFFER);
    assert_eq!(img.index(), 1);
    assert_eq!(buf.index(), 2);
    assert_eq!(write.resource, BindlessResource::StorageBuffer);
    assert_eq!(write.index, 2);
    // Freed buffer slots go to the buffer allocator, so the image
    // allocator hands out a fresh slot next.
    r.deallocate_buffer(buf);
    let (next, _) = r.allocate_image(IMAGE_USAGE_SAMPLED);
    assert_eq!(next.index(), 3);
}

#[test]
fn a_fresh_allocator_can_allocate() {
    let mut a = IndexAllocator::new();
    assert!(a.can_allocate());
    let i = a.allocate();
    a.deallocate(i);
    assert!(a.can_allocate());
}
