use hikari::device::{
    depth_only_candidates, depth_stencil_candidates, device_name_len, pick_optimal, required_extensions, Device,
    FormatProperties, ImageTiling, PhysicalDevice, PhysicalDeviceProperties, FORMAT_D16_UNORM, FORMAT_D24_UNORM_S8_UINT,
    FORMAT_D32_SFLOAT, FORMAT_D32_SFLOAT_S8_UINT, FORMAT_FEATURE_DEPTH_STENCIL_ATTACHMENT, QUEUE_COMPUTE,
    QUEUE_GRAPHICS, QUEUE_TRANSFER,
};
use hikari::features::{Features, GEOMETRY_SHADER, SAMPLER_ANISOTROPY};

const UNIFIED: u32 = QUEUE_GRAPHICS | QUEUE_COMPUTE | QUEUE_TRANSFER;

fn props(linear: u32, optimal: u32) -> FormatProperties {
    FormatProperties { linear_tiling_features: linear, optimal_tiling_features: optimal, buffer_features: 0 }
}

#[test]
fn vendor_names_by_pci_id() {
    let name = |id: u32| PhysicalDeviceProperties::new(String::from("gpu"), id, 1).vendor_string();
    assert_eq!(name(0x1002), "AMD");
    assert_eq!(name(0x10DE), "Nvidia");
    assert_eq!(name(0x8086), "Intel");
    assert_eq!(name(0x13B5), "ARM");
    assert_eq!(name(0x5143), "Unknown");
}

#[test]
fn unified_queue_is_first_family_with_all_three_flags() {
    let d = PhysicalDevice::new(
        vec![QUEUE_GRAPHICS, QUEUE_COMPUTE | QUEUE_TRANSFER, UNIFIED | 0x8, UNIFIED],
        Features::empty(),
    );
    assert_eq!(d.get_unified_queue(), Some(2));
    let none = PhysicalDevice::new(vec![QUEUE_GRAPHICS | QUEUE_COMPUTE, QUEUE_TRANSFER], Features::empty());
    assert_eq!(none.get_unified_queue(), None);
    let empty = PhysicalDevice::new(vec![], Features::empty());
    assert_eq!(empty.get_unified_queue(), None);
}

#[test]
fn present_queue_is_first_supporting_family() {
    let d = PhysicalDevice::new(vec![UNIFIED, UNIFIED, UNIFIED], Features::empty());
    assert_eq!(d.get_present_queue(&vec![false, true, true]), Some(1));
    assert_eq!(d.get_present_queue(&vec![false, false, false]), None);
}

#[test]
fn supported_format_respects_tiling() {
    let d = PhysicalDevice::new(vec![UNIFIED], Features::empty());
    let candidates = depth_stencil_candidates();
    let attach = FORMAT_FEATURE_DEPTH_STENCIL_ATTACHMENT;
    let properties = vec![props(attach, 0), props(0, attach | 0x1), props(attach, attach)];
    assert_eq!(
        d.get_supported_depth_stencil_format(&candidates, &properties, ImageTiling::Optimal, attach),
        Some(FORMAT_D24_UNORM_S8_UINT)
    );
    assert_eq!(
        d.get_supported_depth_stencil_format(&candidates, &properties, ImageTiling::Linear, attach),
        Some(FORMAT_D32_SFLOAT_S8_UINT)
    );
    let none = vec![props(0, 0), props(0, 0), props(0, 0)];
    assert_eq!(d.get_supported_depth_stencil_format(&candidates, &none, ImageTiling::Optimal, attach), None);
}

#[test]
fn pick_optimal_takes_first_suitable_device() {
    let required = Features::from_bits_truncate(SAMPLER_ANISOTROPY);
    let devices = vec![
        PhysicalDevice::new(vec![UNIFIED], Features::from_bits_truncate(GEOMETRY_SHADER)),
        PhysicalDevice::new(vec![QUEUE_GRAPHICS], Features::from_bits_truncate(SAMPLER_ANISOTROPY)),
        PhysicalDevice::new(vec![QUEUE_TRANSFER, UNIFIED], Features::from_bits_truncate(SAMPLER_ANISOTROPY | GEOMETRY_SHADER)),
        PhysicalDevice::new(vec![UNIFIED], Features::from_bits_truncate(SAMPLER_ANISOTROPY)),
    ];
    assert_eq!(pick_optimal(&devices, None, required), Some(2));
    let can_present = vec![vec![true], vec![true], vec![false, true], vec![true]];
    assert_eq!(pick_optimal(&devices, Some(&can_present), required), Some(2));
    let cannot_present = vec![vec![true], vec![true], vec![false, false], vec![true]];
    assert_eq!(pick_optimal(&devices, Some(&cannot_present), required), None);
    assert_eq!(pick_optimal(&devices, None, Features::from_bits_truncate(1 << 40)), None);
    assert_eq!(pick_optimal(&vec![], None, required), None);
}

#[test]
fn extensions_depend_on_presenting() {
    assert_eq!(required_extensions(false), vec!["VK_KHR_synchronization2"]);
    assert_eq!(required_extensions(true), vec!["VK_KHR_synchronization2", "VK_KHR_swapchain"]);
}

#[test]
fn device_name_stops_at_first_nul() {
    let raw: Vec<i8> = vec![71, 80, 85, 0, 65, 0];
    assert_eq!(device_name_len(&raw), 3);
    assert_eq!(device_name_len(&[0i8]), 0);
}

#[test]
fn device_depth_formats_prefer_optimal_tiling() {
    let physical = PhysicalDevice::new(vec![QUEUE_GRAPHICS, UNIFIED], Features::from_bits_truncate(SAMPLER_ANISOTROPY));
    let device = Device::new(physical, PhysicalDeviceProperties::new(String::from("Radeon"), 0x1002, 7));
    assert_eq!(device.unified_queue_ix(), 1);
    assert_eq!(device.vendor(), "AMD");
    assert_eq!(device.model(), "Radeon");
    assert!(device.is_feature_supported(Features::from_bits_truncate(SAMPLER_ANISOTROPY)));
    assert!(!device.is_feature_supported(Features::from_bits_truncate(GEOMETRY_SHADER)));
    assert_eq!(device.features().bits(), SAMPLER_ANISOTROPY);

    let attach = FORMAT_FEATURE_DEPTH_STENCIL_ATTACHMENT;
    let ds = vec![props(0, 0), props(attach, 0), props(0, attach)];
    assert_eq!(device.supported_depth_stencil_format(&ds), hikari::device::FORMAT_D16_UNORM_S8_UINT);
    let ds_linear_only = vec![props(0, 0), props(attach, 0), props(0, 0)];
    assert_eq!(device.supported_depth_stencil_format(&ds_linear_only), FORMAT_D24_UNORM_S8_UINT);

    assert_eq!(depth_only_candidates(), vec![FORMAT_D32_SFLOAT, FORMAT_D16_UNORM]);
    let d = vec![props(attach, 0), props(0, attach)];
    assert_eq!(device.supported_depth_only_format(&d), FORMAT_D16_UNORM);
}
