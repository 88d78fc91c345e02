//! The choices made when a swapchain is created: present mode, surface
//! format, image extent, image count and how the images are shared between
//! queue families. What the surface supports comes in as plain values.
use vstd::prelude::*;

verus! {

/// Vulkan present mode `IMMEDIATE`: no waiting for the vertical blank.
pub const PRESENT_MODE_IMMEDIATE: i32 = 0;

/// Vulkan present mode `MAILBOX`.
pub const PRESENT_MODE_MAILBOX: i32 = 1;

/// Vulkan present mode `FIFO`: presentation waits for the vertical blank.
pub const PRESENT_MODE_FIFO: i32 = 2;

/// Vulkan format `B8G8R8A8_UNORM`, the only surface format a swapchain uses.
pub const FORMAT_B8G8R8A8_UNORM: i32 = 44;

/// A width and a height in pixels.
#[derive(Clone, Copy, Debug, PartialEq, Eq, Structural)]
pub struct Extent2D {
    pub width: u32,
    pub height: u32,
}

/// A format the surface supports, with its colour space.
#[derive(Clone, Copy, Debug, PartialEq, Eq, Structural)]
pub struct SurfaceFormat {
    pub format: i32,
    pub color_space: i32,
}

/// What the surface reports of the images a swapchain may have.
#[derive(Clone, Copy, Debug, PartialEq, Eq, Structural)]
pub struct SurfaceCapabilities {
    pub min_image_count: u32,
    /// 0 when there is no maximum.
    pub max_image_count: u32,
    /// `u32::MAX` wide when the swapchain decides the extent.
    pub current_extent: Extent2D,
    pub min_image_extent: Extent2D,
    pub max_image_extent: Extent2D,
    pub current_transform: u32,
}

/// What the surface supports.
pub struct SwapchainSupportDetails {
    pub formats: Vec<SurfaceFormat>,
    pub capabilities: SurfaceCapabilities,
    pub present_modes: Vec<i32>,
}

/// `value` brought into `[lo, hi]`.
pub open spec fn clamp_spec(value: u32, lo: u32, hi: u32) -> u32 {
    if value < lo {
        lo
    } else if value > hi {
        hi
    } else {
        value
    }
}

/// The extent of the swapchain's images: the surface's current extent, or,
/// where the surface leaves it to the swapchain, the window's size brought
/// into the range the surface allows.
pub open spec fn swap_extent_spec(width: u32, height: u32, caps: SurfaceCapabilities) -> Extent2D {
    if caps.current_extent.width != u32::MAX {
        caps.current_extent
    } else {
        Extent2D {
            width: clamp_spec(width, caps.min_image_extent.width, caps.max_image_extent.width),
            height: clamp_spec(height, caps.min_image_extent.height, caps.max_image_extent.height),
        }
    }
}

/// Where the surface leaves the extent to the swapchain, the range it allows
/// is not empty.
pub open spec fn extent_range_valid(caps: SurfaceCapabilities) -> bool {
    caps.current_extent.width == u32::MAX ==> caps.min_image_extent.width <= caps.max_image_extent.width
        && caps.min_image_extent.height <= caps.max_image_extent.height
}

/// The number of images: one more than the minimum, but no more than the
/// maximum where there is one.
pub open spec fn image_count_spec(caps: SurfaceCapabilities) -> u32 {
    let wanted = caps.min_image_count + 1;
    if caps.max_image_count > 0 && wanted > caps.max_image_count {
        caps.max_image_count
    } else {
        wanted as u32
    }
}

/// The present mode: FIFO with vertical sync, IMMEDIATE without.
pub fn choose_present_mode(support: &SwapchainSupportDetails, vsync: bool) -> (mode: i32)
    ensures
        mode == (if vsync {
            PRESENT_MODE_FIFO
        } else {
            PRESENT_MODE_IMMEDIATE
        }),
{
    if vsync {
        PRESENT_MODE_FIFO
    } else {
        PRESENT_MODE_IMMEDIATE
    }
}

/// The first surface format that is `B8G8R8A8_UNORM`; the surface must offer one.
pub fn choose_swapchain_format(support: &SwapchainSupportDetails) -> (f: SurfaceFormat)
    requires
        exists|i: int| 0 <= i < support.formats@.len() && support.formats@[i].format == FORMAT_B8G8R8A8_UNORM,
    ensures
        exists|i: int|
            0 <= i < support.formats@.len() && support.formats@[i] == f && f.format == FORMAT_B8G8R8A8_UNORM
                && forall|j: int| 0 <= j < i ==> support.formats@[j].format != FORMAT_B8G8R8A8_UNORM,
{
    let n = support.formats.len();
    let mut i: usize = 0;
    while i < n
        invariant
            n == support.formats@.len(),
            i <= n,
            forall|j: int| 0 <= j < i ==> support.formats@[j].format != FORMAT_B8G8R8A8_UNORM,
            exists|k: int| 0 <= k < support.formats@.len() && support.formats@[k].format == FORMAT_B8G8R8A8_UNORM,
        decreases n - i,
    {
        let f = support.formats[i];
        if f.format == FORMAT_B8G8R8A8_UNORM {
            return f;
        }
        i = i + 1;
    }
    support.formats[0]
}

/// `value` brought into `[lo, hi]`.
fn clamp_u32(value: u32, lo: u32, hi: u32) -> (c: u32)
    requires
        lo <= hi,
    ensures
        c == clamp_spec(value, lo, hi),
{
    if value < lo {
        lo
    } else if value > hi {
        hi
    } else {
        value
    }
}

/// The extent of the swapchain's images for a window of `width` by `height`.
pub fn choose_swap_extent(width: u32, height: u32, support: &SwapchainSupportDetails) -> (e: Extent2D)
    requires
        extent_range_valid(support.capabilities),
    ensures
        e == swap_extent_spec(width, height, support.capabilities),
{
    let caps = &support.capabilities;
    if caps.current_extent.width != u32::MAX {
        caps.current_extent
    } else {
        Extent2D {
            width: clamp_u32(width, caps.min_image_extent.width, caps.max_image_extent.width),
            height: clamp_u32(height, caps.min_image_extent.height, caps.max_image_extent.height),
        }
    }
}

/// The number of images to ask for.
pub fn choose_image_count(caps: &SurfaceCapabilities) -> (n: u32)
    requires
        caps.min_image_count < u32::MAX,
    ensures
        n == image_count_spec(*caps),
{
    let mut image_count = caps.min_image_count + 1;
    if caps.max_image_count > 0 && image_count > caps.max_image_count {
        image_count = caps.max_image_count;
    }
    image_count
}

/// How the swapchain's images are shared: by the unified and the present
/// queue family concurrently, with a queue of its own for presenting, where
/// the two families differ; by the unified family alone otherwise.
#[derive(Clone, Copy, Debug, PartialEq, Eq, Structural)]
pub enum ImageSharing {
    Exclusive,
    Concurrent { unified_family: u32, present_family: u32 },
}

/// The sharing of the swapchain's images between the unified queue family
/// and the family that presents.
pub fn choose_image_sharing(unified_queue_ix: u32, present_queue_ix: u32) -> (s: ImageSharing)
    ensures
        s == (if unified_queue_ix != present_queue_ix {
            ImageSharing::Concurrent { unified_family: unified_queue_ix, present_family: present_queue_ix }
        } else {
            ImageSharing::Exclusive
        }),
{
    if unified_queue_ix != present_queue_ix {
        ImageSharing::Concurrent { unified_family: unified_queue_ix, present_family: present_queue_ix }
    } else {
        ImageSharing::Exclusive
    }
}

/// Everything decided about a swapchain before it is created.
#[derive(Clone, Copy, Debug, PartialEq, Eq, Structural)]
pub struct SwapchainPlan {
    pub present_mode: i32,
    pub surface_format: SurfaceFormat,
    pub extent: Extent2D,
    pub image_count: u32,
    pub pre_transform: u32,
    pub sharing: ImageSharing,
}

/// Decides the swapchain for a window of `width` by `height` on a surface
/// with `support`, presented from `present_queue_ix`.
pub fn plan_swapchain(
    width: u32,
    height: u32,
    vsync: bool,
    support: &SwapchainSupportDetails,
    unified_queue_ix: u32,
    present_queue_ix: u32,
) -> (p: SwapchainPlan)
    requires
        exists|i: int| 0 <= i < support.formats@.len() && support.formats@[i].format == FORMAT_B8G8R8A8_UNORM,
        extent_range_valid(support.capabilities),
        support.capabilities.min_image_count < u32::MAX,
    ensures
        p.present_mode == (if vsync {
            PRESENT_MODE_FIFO
        } else {
            PRESENT_MODE_IMMEDIATE
        }),
        exists|i: int|
            0 <= i < support.formats@.len() && support.formats@[i] == p.surface_format && p.surface_format.format
                == FORMAT_B8G8R8A8_UNORM && forall|j: int|
                0 <= j < i ==> support.formats@[j].format != FORMAT_B8G8R8A8_UNORM,
        p.extent == swap_extent_spec(width, height, support.capabilities),
        p.image_count == image_count_spec(support.capabilities),
        p.pre_transform == support.capabilities.current_transform,
        p.sharing == (if unified_queue_ix != present_queue_ix {
            ImageSharing::Concurrent { unified_family: unified_queue_ix, present_family: present_queue_ix }
        } else {
            ImageSharing::Exclusive
        }),
{
    SwapchainPlan {
        present_mode: choose_present_mode(support, vsync),
        surface_format: choose_swapchain_format(support),
        extent: choose_swap_extent(width, height, support),
        image_count: choose_image_count(&support.capabilities),
        pre_transform: support.capabilities.current_transform,
        sharing: choose_image_sharing(unified_queue_ix, present_queue_ix),
    }
}

/// The swapchain's images are as large as the surface allows and no larger:
/// where the swapchain decides the extent, it lies within the surface's range.
pub proof fn law_extent_within_range(width: u32, height: u32, caps: SurfaceCapabilities)
    requires
        extent_range_valid(caps),
        caps.current_extent.width == u32::MAX,
    ensures
        caps.min_image_extent.width <= swap_extent_spec(width, height, caps).width <= caps.max_image_extent.width,
        caps.min_image_extent.height <= swap_extent_spec(width, height, caps).height
            <= caps.max_image_extent.height,
{
}

} // verus!
