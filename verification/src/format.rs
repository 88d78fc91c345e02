//! What the engine knows of the image formats it uses: the size of a texel
//! and which aspects (colour, depth, stencil) an image of the format has.
use vstd::prelude::*;
use crate::device::{
    FORMAT_D16_UNORM, FORMAT_D16_UNORM_S8_UINT, FORMAT_D24_UNORM_S8_UINT, FORMAT_D32_SFLOAT,
    FORMAT_D32_SFLOAT_S8_UINT,
};

verus! {

/// Vulkan format `R8G8B8A8_UNORM`.
pub const FORMAT_R8G8B8A8_UNORM: i32 = 37;

/// Vulkan format `R8G8B8A8_SNORM`.
pub const FORMAT_R8G8B8A8_SNORM: i32 = 38;

/// Vulkan format `R8G8B8A8_SINT`.
pub const FORMAT_R8G8B8A8_SINT: i32 = 42;

/// Vulkan format `R8G8B8A8_SRGB`.
pub const FORMAT_R8G8B8A8_SRGB: i32 = 43;

/// Vulkan format `R16G16B16A16_SNORM`.
pub const FORMAT_R16G16B16A16_SNORM: i32 = 92;

/// Vulkan format `R16G16B16A16_SINT`.
pub const FORMAT_R16G16B16A16_SINT: i32 = 96;

/// Vulkan format `R16G16B16A16_SFLOAT`.
pub const FORMAT_R16G16B16A16_SFLOAT: i32 = 97;

/// Vulkan format `R32G32_SFLOAT`.
pub const FORMAT_R32G32_SFLOAT: i32 = 103;

/// Vulkan format `R32G32B32A32_UINT`.
pub const FORMAT_R32G32B32A32_UINT: i32 = 107;

/// Vulkan format `R32G32B32A32_SINT`.
pub const FORMAT_R32G32B32A32_SINT: i32 = 108;

/// Vulkan format `R32G32B32A32_SFLOAT`.
pub const FORMAT_R32G32B32A32_SFLOAT: i32 = 109;

/// Image aspect flag: colour.
pub const ASPECT_COLOR: u32 = 0x1;

/// Image aspect flag: depth.
pub const ASPECT_DEPTH: u32 = 0x2;

/// Image aspect flag: stencil.
pub const ASPECT_STENCIL: u32 = 0x4;

/// The size in bytes of a texel of `format`, for the formats the engine
/// knows; none for the others.
pub open spec fn texel_size(format: i32) -> Option<u32> {
    if format == FORMAT_R8G8B8A8_SINT || format == FORMAT_R8G8B8A8_SNORM || format == FORMAT_R8G8B8A8_SRGB
        || format == FORMAT_R8G8B8A8_UNORM {
        Some(4)
    } else if format == FORMAT_R16G16B16A16_SINT || format == FORMAT_R16G16B16A16_SNORM || format
        == FORMAT_R16G16B16A16_SFLOAT {
        Some(8)
    } else if format == FORMAT_R32G32B32A32_SINT || format == FORMAT_R32G32B32A32_SFLOAT || format
        == FORMAT_R32G32B32A32_UINT {
        Some(16)
    } else if format == FORMAT_R32G32_SFLOAT {
        Some(8)
    } else if format == FORMAT_D16_UNORM {
        Some(2)
    } else if format == FORMAT_D16_UNORM_S8_UINT {
        Some(3)
    } else if format == FORMAT_D24_UNORM_S8_UINT {
        Some(4)
    } else if format == FORMAT_D32_SFLOAT {
        Some(4)
    } else if format == FORMAT_D32_SFLOAT_S8_UINT {
        Some(5)
    } else {
        None
    }
}

/// The size in bytes of a texel of `format`, which must be one the engine knows.
pub fn format_size(format: i32) -> (size: u32)
    requires
        texel_size(format) is Some,
    ensures
        size == texel_size(format)->0,
{
    if format == FORMAT_R8G8B8A8_SINT || format == FORMAT_R8G8B8A8_SNORM || format == FORMAT_R8G8B8A8_SRGB
        || format == FORMAT_R8G8B8A8_UNORM {
        4
    } else if format == FORMAT_R16G16B16A16_SINT || format == FORMAT_R16G16B16A16_SNORM || format
        == FORMAT_R16G16B16A16_SFLOAT {
        2 * 4
    } else if format == FORMAT_R32G32B32A32_SINT || format == FORMAT_R32G32B32A32_SFLOAT || format
        == FORMAT_R32G32B32A32_UINT {
        4 * 4
    } else if format == FORMAT_R32G32_SFLOAT {
        2 * 4
    } else if format == FORMAT_D16_UNORM {
        2
    } else if format == FORMAT_D16_UNORM_S8_UINT {
        3
    } else if format == FORMAT_D24_UNORM_S8_UINT {
        4
    } else if format == FORMAT_D32_SFLOAT {
        4
    } else {
        5
    }
}

/// The aspects of an image of `format`: depth for the depth-only formats,
/// depth and stencil for the depth/stencil formats, colour for any other.
pub open spec fn aspect_flags(format: i32) -> u32 {
    if format == FORMAT_D16_UNORM || format == FORMAT_D32_SFLOAT {
        ASPECT_DEPTH
    } else if format == FORMAT_D16_UNORM_S8_UINT || format == FORMAT_D24_UNORM_S8_UINT || format
        == FORMAT_D32_SFLOAT_S8_UINT {
        ASPECT_DEPTH | ASPECT_STENCIL
    } else {
        ASPECT_COLOR
    }
}

/// The aspects of an image of `format`.
pub fn format_to_aspect_flags(format: i32) -> (flags: u32)
    ensures
        flags == aspect_flags(format),
{
    if format == FORMAT_D16_UNORM || format == FORMAT_D32_SFLOAT {
        ASPECT_DEPTH
    } else if format == FORMAT_D16_UNORM_S8_UINT || format == FORMAT_D24_UNORM_S8_UINT || format
        == FORMAT_D32_SFLOAT_S8_UINT {
        ASPECT_DEPTH | ASPECT_STENCIL
    } else {
        ASPECT_COLOR
    }
}

/// Every depth format a device may pick is one whose texel size is known
/// and whose images have a depth aspect.
pub proof fn law_depth_formats_are_known(format: i32)
    requires
        crate::device::depth_stencil_candidates_spec().contains(format)
            || crate::device::depth_only_candidates_spec().contains(format),
    ensures
        texel_size(format) is Some,
        aspect_flags(format) & ASPECT_DEPTH == ASPECT_DEPTH,
{
    let ds = crate::device::depth_stencil_candidates_spec();
    let d = crate::device::depth_only_candidates_spec();
    if ds.contains(format) {
        let i = choose|i: int| 0 <= i < ds.len() && ds[i] == format;
        assert(i == 0 || i == 1 || i == 2);
    } else {
        let i = choose|i: int| 0 <= i < d.len() && d[i] == format;
        assert(i == 0 || i == 1);
    }
    assert(2u32 & 2u32 == 2u32) by (bit_vector);
    assert((2u32 | 4u32) & 2u32 == 2u32) by (bit_vector);
}

} // verus!
