use hikari::shader_layout::{
    generate_push_constant_ranges, spirv_desc_type_to_vk_desc_type, PushConstantBlock, PushConstantRange,
    ReflectDescriptorType, StagePushConstants,
};

#[test]
fn descriptor_types_map_to_vulkan_values() {
    assert_eq!(spirv_desc_type_to_vk_desc_type(ReflectDescriptorType::Sampler), 0);
    assert_eq!(spirv_desc_type_to_vk_desc_type(ReflectDescriptorType::CombinedImageSampler), 1);
    assert_eq!(spirv_desc_type_to_vk_desc_type(ReflectDescriptorType::StorageBuffer), 7);
    assert_eq!(spirv_desc_type_to_vk_desc_type(ReflectDescriptorType::InputAttachment), 10);
    assert_eq!(spirv_desc_type_to_vk_desc_type(ReflectDescriptorType::AccelerationStructureKHR), 1000150000);
}

#[test]
fn shared_push_constant_blocks_merge_stage_flags() {
    let vertex = StagePushConstants {
        stage: 0x1,
        blocks: vec![PushConstantBlock { offset: 0, size: 64 }, PushConstantBlock { offset: 64, size: 16 }],
    };
    let fragment = StagePushConstants {
        stage: 0x10,
        blocks: vec![PushConstantBlock { offset: 0, size: 64 }, PushConstantBlock { offset: 0, size: 32 }],
    };
    let ranges = generate_push_constant_ranges(&vec![vertex, fragment]);
    assert_eq!(
        ranges,
        vec![
            PushConstantRange { size: 64, offset: 0, stage_flags: 0x11 },
            PushConstantRange { size: 16, offset: 64, stage_flags: 0x1 },
            PushConstantRange { size: 32, offset: 0, stage_flags: 0x10 },
        ]
    );
    assert!(generate_push_constant_ranges(&vec![]).is_empty());
}
