use hikari::swapchain::{
    choose_image_count, choose_image_sharing, choose_present_mode, choose_swap_extent, choose_swapchain_format,
    plan_swapchain, Extent2D, ImageSharing, SurfaceCapabilities, SurfaceFormat, SwapchainSupportDetails,
    FORMAT_B8G8R8A8_UNORM, PRESENT_MODE_FIFO, PRESENT_MODE_IMMEDIATE, PRESENT_MODE_MAILBOX,
};

fn caps(current: Extent2D, min_count: u32, max_count: u32) -> SurfaceCapabilities {
    SurfaceCapabilities {
        min_image_count: min_count,
        max_image_count: max_count,
        current_extent: current,
        min_image_extent: Extent2D { width: 100, height: 50 },
        max_image_extent: Extent2D { width: 1920, height: 1080 },
        current_transform: 1,
    }
}

fn support(current: Extent2D) -> SwapchainSupportDetails {
    SwapchainSupportDetails {
        formats: vec![
            SurfaceFormat { format: 50, color_space: 0 },
            SurfaceFormat { format: FORMAT_B8G8R8A8_UNORM, color_space: 7 },
            SurfaceFormat { format: FORMAT_B8G8R8A8_UNORM, color_space: 0 },
        ],
        capabilities: caps(current, 2, 3),
        present_modes: vec![PRESENT_MODE_MAILBOX, PRESENT_MODE_FIFO],
    }
}

#[test]
fn present_mode_follows_vsync() {
    let s = support(Extent2D { width: 800, height: 600 });
    assert_eq!(choose_present_mode(&s, true), PRESENT_MODE_FIFO);
    // Mailbox is offered but not used.
    assert_eq!(choose_present_mode(&s, false), PRESENT_MODE_IMMEDIATE);
}

#[test]
fn format_is_first_bgra_unorm() {
    let s = support(Extent2D { width: 800, height: 600 });
    assert_eq!(choose_swapchain_format(&s), SurfaceFormat { format: FORMAT_B8G8R8A8_UNORM, color_space: 7 });
}

#[test]
fn extent_is_current_or_clamped_window_size() {
    let fixed = support(Extent2D { width: 800, height: 600 });
    assert_eq!(choose_swap_extent(1000, 1000, &fixed), Extent2D { width: 800, height: 600 });
    let free = support(Extent2D { width: u32::MAX, height: u32::MAX });
    assert_eq!(choose_swap_extent(4000, 10, &free), Extent2D { width: 1920, height: 50 });
    assert_eq!(choose_swap_extent(640, 480, &free), Extent2D { width: 640, height: 480 });
}

#[test]
fn image_count_is_one_above_minimum_within_maximum() {
    let e = Extent2D { width: 1, height: 1 };
    assert_eq!(choose_image_count(&caps(e, 2, 3)), 3);
    assert_eq!(choose_image_count(&caps(e, 3, 3)), 3);
    assert_eq!(choose_image_count(&caps(e, 3, 0)), 4);
}

#[test]
fn sharing_depends_on_queue_families() {
    assert_eq!(choose_image_sharing(0, 0), ImageSharing::Exclusive);
    assert_eq!(choose_image_sharing(0, 2), ImageSharing::Concurrent { unified_family: 0, present_family: 2 });
}

#[test]
fn plan_gathers_all_choices() {
    let s = support(Extent2D { width: u32::MAX, height: u32::MAX });
    let p = plan_swapchain(1280, 720, true, &s, 1, 1);
    assert_eq!(p.present_mode, PRESENT_MODE_FIFO);
    assert_eq!(p.surface_format.format, FORMAT_B8G8R8A8_UNORM);
    assert_eq!(p.extent, Extent2D { width: 1280, height: 720 });
    assert_eq!(p.image_count, 3);
    assert_eq!(p.pre_transform, 1);
    assert_eq!(p.sharing, ImageSharing::Exclusive);
}
