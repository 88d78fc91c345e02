use hikari::barrier::{
    get_access_info, is_hazard, AccessType, ACCESS_COLOR_ATTACHMENT_READ, ACCESS_COLOR_ATTACHMENT_WRITE,
    ACCESS_DEPTH_STENCIL_ATTACHMENT_READ, ACCESS_DEPTH_STENCIL_ATTACHMENT_WRITE, ACCESS_MEMORY_READ, ACCESS_MEMORY_WRITE,
    ACCESS_SHADER_READ, ACCESS_TRANSFER_WRITE, ACCESS_UNIFORM_READ, ACCESS_VERTEX_ATTRIBUTE_READ, LAYOUT_GENERAL,
    LAYOUT_PRESENT_SRC, LAYOUT_SHADER_READ_ONLY_OPTIMAL, LAYOUT_TRANSFER_DST_OPTIMAL, LAYOUT_UNDEFINED,
    STAGE_ALL_COMMANDS, STAGE_COLOR_ATTACHMENT_OUTPUT, STAGE_EARLY_FRAGMENT_TESTS, STAGE_FRAGMENT_SHADER,
    STAGE_LATE_FRAGMENT_TESTS, STAGE_TRANSFER,
};

#[test]
fn empty_access_lists_are_no_hazard() {
    assert!(!is_hazard(&[], &[AccessType::TransferWrite]));
    assert!(!is_hazard(&[AccessType::TransferWrite], &[]));
}

#[test]
fn writes_are_hazards() {
    let read = [AccessType::FragmentShaderReadSampledImageOrUniformTexelBuffer];
    let write = [AccessType::ColorAttachmentWrite];
    assert!(is_hazard(&write, &read));
    assert!(is_hazard(&read, &write));
    assert!(is_hazard(&write, &write));
}

#[test]
fn the_same_reads_again_are_no_hazard() {
    let reads = [AccessType::FragmentShaderReadSampledImageOrUniformTexelBuffer, AccessType::TransferRead];
    assert!(!is_hazard(&reads, &reads));
}

#[test]
fn different_reads_are_a_hazard() {
    let a = [AccessType::FragmentShaderReadSampledImageOrUniformTexelBuffer];
    let b = [AccessType::ComputeShaderReadOther];
    assert!(is_hazard(&a, &b));
}

#[test]
fn access_info_of_common_accesses() {
    let info = get_access_info(AccessType::ColorAttachmentWrite);
    assert_eq!(info.stage_mask, STAGE_COLOR_ATTACHMENT_OUTPUT);
    assert_eq!(info.access_mask, ACCESS_COLOR_ATTACHMENT_WRITE);
    assert_eq!(info.image_layout, 2);

    let info = get_access_info(AccessType::FragmentShaderReadSampledImageOrUniformTexelBuffer);
    assert_eq!(info.stage_mask, STAGE_FRAGMENT_SHADER);
    assert_eq!(info.access_mask, ACCESS_SHADER_READ);
    assert_eq!(info.image_layout, LAYOUT_SHADER_READ_ONLY_OPTIMAL);

    let info = get_access_info(AccessType::DepthAttachmentWriteStencilReadOnly);
    assert_eq!(info.stage_mask, STAGE_EARLY_FRAGMENT_TESTS | STAGE_LATE_FRAGMENT_TESTS);
    assert_eq!(info.stage_mask, 0x300);
    assert_eq!(info.access_mask, ACCESS_DEPTH_STENCIL_ATTACHMENT_WRITE | ACCESS_DEPTH_STENCIL_ATTACHMENT_READ);
    assert_eq!(info.image_layout, 1000117001);

    let info = get_access_info(AccessType::Present);
    assert_eq!((info.stage_mask, info.access_mask, info.image_layout), (0, 0, LAYOUT_PRESENT_SRC));
    assert_eq!(LAYOUT_PRESENT_SRC, 1000001002);

    let info = get_access_info(AccessType::General);
    assert_eq!(info.stage_mask, STAGE_ALL_COMMANDS);
    assert_eq!(info.access_mask, ACCESS_MEMORY_READ | ACCESS_MEMORY_WRITE);
    assert_eq!(info.image_layout, LAYOUT_GENERAL);

    let info = get_access_info(AccessType::TransferWrite);
    assert_eq!((info.stage_mask, info.access_mask, info.image_layout), (STAGE_TRANSFER, ACCESS_TRANSFER_WRITE, LAYOUT_TRANSFER_DST_OPTIMAL));
}

#[test]
fn vertex_shader_uniform_reads_use_the_shader_read_bit() {
    let info = get_access_info(AccessType::VertexShaderReadUniformBuffer);
    assert_eq!(info.access_mask, ACCESS_SHADER_READ);
    assert_eq!(info.image_layout, LAYOUT_UNDEFINED);
    let info = get_access_info(AccessType::FragmentShaderReadUniformBuffer);
    assert_eq!(info.access_mask, ACCESS_UNIFORM_READ);
    let info = get_access_info(AccessType::AnyShaderReadUniformBufferOrVertexBuffer);
    assert_eq!(info.access_mask, ACCESS_UNIFORM_READ | ACCESS_VERTEX_ATTRIBUTE_READ);
    let info = get_access_info(AccessType::ColorAttachmentReadWrite);
    assert_eq!(info.access_mask, ACCESS_COLOR_ATTACHMENT_READ | ACCESS_COLOR_ATTACHMENT_WRITE);
}
