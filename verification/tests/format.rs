use hikari::device::{FORMAT_D16_UNORM, FORMAT_D24_UNORM_S8_UINT, FORMAT_D32_SFLOAT_S8_UINT};
use hikari::format::{
    format_size, format_to_aspect_flags, ASPECT_COLOR, ASPECT_DEPTH, ASPECT_STENCIL, FORMAT_R16G16B16A16_SFLOAT,
    FORMAT_R32G32B32A32_SFLOAT, FORMAT_R32G32_SFLOAT, FORMAT_R8G8B8A8_SRGB, FORMAT_R8G8B8A8_UNORM,
};

#[test]
fn texel_sizes() {
    assert_eq!(format_size(FORMAT_R8G8B8A8_UNORM), 4);
    assert_eq!(format_size(FORMAT_R8G8B8A8_SRGB), 4);
    assert_eq!(format_size(FORMAT_R16G16B16A16_SFLOAT), 8);
    assert_eq!(format_size(FORMAT_R32G32B32A32_SFLOAT), 16);
    assert_eq!(format_size(FORMAT_R32G32_SFLOAT), 8);
    assert_eq!(format_size(FORMAT_D16_UNORM), 2);
    assert_eq!(format_size(FORMAT_D24_UNORM_S8_UINT), 4);
    assert_eq!(format_size(FORMAT_D32_SFLOAT_S8_UINT), 5);
}

#[test]
fn aspects_by_format() {
    assert_eq!(format_to_aspect_flags(FORMAT_D16_UNORM), ASPECT_DEPTH);
    assert_eq!(format_to_aspect_flags(FORMAT_D24_UNORM_S8_UINT), ASPECT_DEPTH | ASPECT_STENCIL);
    assert_eq!(format_to_aspect_flags(FORMAT_R8G8B8A8_UNORM), ASPECT_COLOR);
    assert_eq!(format_to_aspect_flags(12345), ASPECT_COLOR);
}
