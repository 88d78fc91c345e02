//! Choice of the physical device, its unified queue family and its depth
//! formats. What the driver reports (queue families, surface support,
//! format properties) comes in as plain values; the choices are made here.
use vstd::prelude::*;
use crate::features::Features;

verus! {

/// Queue family flag: graphics work.
pub const QUEUE_GRAPHICS: u32 = 0x1;

/// Queue family flag: compute work.
pub const QUEUE_COMPUTE: u32 = 0x2;

/// Queue family flag: transfer work.
pub const QUEUE_TRANSFER: u32 = 0x4;

/// The flags a unified queue family must have: graphics, compute and transfer.
pub const UNIFIED_QUEUE_FLAGS: u32 = 0x7;

/// Vulkan format `D16_UNORM`.
pub const FORMAT_D16_UNORM: i32 = 124;

/// Vulkan format `D32_SFLOAT`.
pub const FORMAT_D32_SFLOAT: i32 = 126;

/// Vulkan format `D16_UNORM_S8_UINT`.
pub const FORMAT_D16_UNORM_S8_UINT: i32 = 128;

/// Vulkan format `D24_UNORM_S8_UINT`.
pub const FORMAT_D24_UNORM_S8_UINT: i32 = 129;

/// Vulkan format `D32_SFLOAT_S8_UINT`.
pub const FORMAT_D32_SFLOAT_S8_UINT: i32 = 130;

/// Format feature flag: usable as a depth/stencil attachment.
pub const FORMAT_FEATURE_DEPTH_STENCIL_ATTACHMENT: u32 = 0x200;

/// Name of the device extension that every device must offer.
pub const SYNCHRONIZATION2_EXTENSION: &'static str = "VK_KHR_synchronization2";

/// Name of the device extension needed to present to a surface.
pub const SWAPCHAIN_EXTENSION: &'static str = "VK_KHR_swapchain";

/// Whether a queue family with these flags can take graphics, compute and transfer work.
pub open spec fn is_unified(flags: u32) -> bool {
    flags & UNIFIED_QUEUE_FLAGS == UNIFIED_QUEUE_FLAGS
}

/// The first index from `i` on whose queue family is unified.
pub open spec fn first_unified_from(families: Seq<u32>, i: int) -> Option<int>
    decreases families.len() - i,
{
    if i < 0 || i >= families.len() {
        None
    } else if is_unified(families[i]) {
        Some(i)
    } else {
        first_unified_from(families, i + 1)
    }
}

/// The first index from `i` on whose entry is `true`.
pub open spec fn first_true_from(s: Seq<bool>, i: int) -> Option<int>
    decreases s.len() - i,
{
    if i < 0 || i >= s.len() {
        None
    } else if s[i] {
        Some(i)
    } else {
        first_true_from(s, i + 1)
    }
}

/// Tiling of an image: how its texels are laid out in memory.
#[derive(Clone, Copy, Debug, PartialEq, Eq, Hash, Structural)]
pub enum ImageTiling {
    Optimal,
    Linear,
}

/// What the driver reports of one format: its features under each tiling
/// and for buffers.
#[derive(Clone, Copy, Debug, PartialEq, Eq, Hash, Structural)]
pub struct FormatProperties {
    pub linear_tiling_features: u32,
    pub optimal_tiling_features: u32,
    pub buffer_features: u32,
}

/// The format features under a tiling.
pub open spec fn tiling_features(p: FormatProperties, tiling: ImageTiling) -> u32 {
    match tiling {
        ImageTiling::Optimal => p.optimal_tiling_features,
        ImageTiling::Linear => p.linear_tiling_features,
    }
}

/// Whether the format has all of `features` under `tiling`.
pub open spec fn format_supports(p: FormatProperties, tiling: ImageTiling, features: u32) -> bool {
    tiling_features(p, tiling) & features == features
}

/// The first index from `i` on whose format has all of `features` under `tiling`.
pub open spec fn first_supported_from(
    props: Seq<FormatProperties>,
    tiling: ImageTiling,
    features: u32,
    i: int,
) -> Option<int>
    decreases props.len() - i,
{
    if i < 0 || i >= props.len() {
        None
    } else if format_supports(props[i], tiling, features) {
        Some(i)
    } else {
        first_supported_from(props, tiling, features, i + 1)
    }
}

/// The candidate at the first supported index, if there is one.
pub open spec fn first_supported_format(
    candidates: Seq<i32>,
    props: Seq<FormatProperties>,
    tiling: ImageTiling,
    features: u32,
) -> Option<i32> {
    match first_supported_from(props, tiling, features, 0) {
        Some(i) => Some(candidates[i]),
        None => None,
    }
}

/// The depth format that a device uses: the first candidate usable as a
/// depth/stencil attachment with optimal tiling, else the first with linear tiling.
pub open spec fn chosen_depth_format(candidates: Seq<i32>, props: Seq<FormatProperties>) -> Option<i32> {
    match first_supported_format(candidates, props, ImageTiling::Optimal, FORMAT_FEATURE_DEPTH_STENCIL_ATTACHMENT) {
        Some(f) => Some(f),
        None => first_supported_format(candidates, props, ImageTiling::Linear, FORMAT_FEATURE_DEPTH_STENCIL_ATTACHMENT),
    }
}

/// The depth/stencil formats a device may use, best first.
pub open spec fn depth_stencil_candidates_spec() -> Seq<i32> {
    seq![FORMAT_D32_SFLOAT_S8_UINT, FORMAT_D24_UNORM_S8_UINT, FORMAT_D16_UNORM_S8_UINT]
}

/// The depth-only formats a device may use, best first.
pub open spec fn depth_only_candidates_spec() -> Seq<i32> {
    seq![FORMAT_D32_SFLOAT, FORMAT_D16_UNORM]
}

/// The depth/stencil formats a device may use, best first.
pub fn depth_stencil_candidates() -> (v: Vec<i32>)
    ensures
        v@ == depth_stencil_candidates_spec(),
{
    vec![FORMAT_D32_SFLOAT_S8_UINT, FORMAT_D24_UNORM_S8_UINT, FORMAT_D16_UNORM_S8_UINT]
}

/// The depth-only formats a device may use, best first.
pub fn depth_only_candidates() -> (v: Vec<i32>)
    ensures
        v@ == depth_only_candidates_spec(),
{
    vec![FORMAT_D32_SFLOAT, FORMAT_D16_UNORM]
}

/// A physical device as the library sees it: the flags of each of its queue
/// families and the features it supports.
#[derive(Debug)]
pub struct PhysicalDevice {
    pub queue_families: Vec<u32>,
    pub features: Features,
}

/// Whether a device has a unified queue family and every required feature.
pub open spec fn is_suitable(d: PhysicalDevice, required: Features) -> bool {
    &&& first_unified_from(d.queue_families@, 0) is Some
    &&& d.features.value() & required.value() == required.value()
}

/// The first index from `i` on whose device is suitable.
pub open spec fn first_suitable_from(devices: Seq<PhysicalDevice>, required: Features, i: int) -> Option<int>
    decreases devices.len() - i,
{
    if i < 0 || i >= devices.len() {
        None
    } else if is_suitable(devices[i], required) {
        Some(i)
    } else {
        first_suitable_from(devices, required, i + 1)
    }
}

/// The device that is picked: the first suitable one, provided that, where
/// there is a surface, it can present to it; otherwise none.
pub open spec fn picked_device(
    devices: Seq<PhysicalDevice>,
    required: Features,
    surface_support: Option<Seq<Seq<bool>>>,
) -> Option<int> {
    match first_suitable_from(devices, required, 0) {
        None => None,
        Some(i) => match surface_support {
            None => Some(i),
            Some(s) => if first_true_from(s[i], 0) is Some {
                Some(i)
            } else {
                None
            },
        },
    }
}

impl PhysicalDevice {
    /// A device with these queue families and features.
    pub fn new(queue_families: Vec<u32>, features: Features) -> (d: Self)
        ensures
            d.queue_families@ == queue_families@,
            d.features == features,
    {
        PhysicalDevice { queue_families, features }
    }

    /// The index of the first queue family that takes graphics, compute and
    /// transfer work, if any does.
    pub fn get_unified_queue(&self) -> (r: Option<u32>)
        requires
            self.queue_families.len() <= u32::MAX,
        ensures
            r == (match first_unified_from(self.queue_families@, 0) {
                Some(i) => Some(i as u32),
                None => None::<u32>,
            }),
    {
        let n = self.queue_families.len();
        let mut i: usize = 0;
        while i < n
            invariant
                n == self.queue_families.len(),
                n <= u32::MAX,
                i <= n,
                first_unified_from(self.queue_families@, 0) == first_unified_from(self.queue_families@, i as int),
            decreases n - i,
        {
            let flags = self.queue_families[i];
            if flags & UNIFIED_QUEUE_FLAGS == UNIFIED_QUEUE_FLAGS {
                return Some(i as u32);
            }
            i = i + 1;
        }
        None
    }

    /// The index of the first queue family that can present to the surface;
    /// `surface_support` says, family by family, whether it can.
    pub fn get_present_queue(&self, surface_support: &Vec<bool>) -> (r: Option<u32>)
        requires
            surface_support.len() == self.queue_families.len(),
            self.queue_families.len() <= u32::MAX,
        ensures
            r == (match first_true_from(surface_support@, 0) {
                Some(i) => Some(i as u32),
                None => None::<u32>,
            }),
    {
        first_present(surface_support)
    }

    /// The first candidate format that has all of `features` under `tiling`;
    /// `properties` holds what the driver reports of each candidate, in order.
    pub fn get_supported_depth_stencil_format(
        &self,
        candidates: &Vec<i32>,
        properties: &Vec<FormatProperties>,
        tiling: ImageTiling,
        features: u32,
    ) -> (r: Option<i32>)
        requires
            properties.len() == candidates.len(),
        ensures
            r == first_supported_format(candidates@, properties@, tiling, features),
    {
        let n = candidates.len();
        let mut i: usize = 0;
        while i < n
            invariant
                n == candidates.len(),
                n == properties.len(),
                i <= n,
                first_supported_from(properties@, tiling, features, 0)
                    == first_supported_from(properties@, tiling, features, i as int),
            decreases n - i,
        {
            let p = properties[i];
            let supported = match tiling {
                ImageTiling::Optimal => p.optimal_tiling_features & features == features,
                ImageTiling::Linear => p.linear_tiling_features & features == features,
            };
            if supported {
                return Some(candidates[i]);
            }
            i = i + 1;
        }
        None
    }

    /// The features of the device.
    pub fn features(&self) -> (f: Features)
        ensures
            f == self.features,
    {
        self.features
    }
}

/// The index of the first `true` entry.
fn first_present(support: &Vec<bool>) -> (r: Option<u32>)
    requires
        support.len() <= u32::MAX,
    ensures
        r == (match first_true_from(support@, 0) {
            Some(i) => Some(i as u32),
            None => None::<u32>,
        }),
{
    let n = support.len();
    let mut i: usize = 0;
    while i < n
        invariant
            n == support.len(),
            n <= u32::MAX,
            i <= n,
            first_true_from(support@, 0) == first_true_from(support@, i as int),
        decreases n - i,
    {
        if support[i] {
            return Some(i as u32);
        }
        i = i + 1;
    }
    None
}

/// The device extensions a device must offer: synchronization2 always, and
/// the swapchain extension where there is a surface to present to.
pub fn required_extensions(presents: bool) -> (v: Vec<&'static str>)
    ensures
        presents ==> v@.len() == 2 && v@[0]@ == SYNCHRONIZATION2_EXTENSION@ && v@[1]@ == SWAPCHAIN_EXTENSION@,
        !presents ==> v@.len() == 1 && v@[0]@ == SYNCHRONIZATION2_EXTENSION@,
{
    let mut v: Vec<&'static str> = Vec::new();
    v.push(SYNCHRONIZATION2_EXTENSION);
    if presents {
        v.push(SWAPCHAIN_EXTENSION);
    }
    v
}

/// Picks the device to render with: the first that has a unified queue family
/// and every required feature. Where there is a surface (`surface_support`
/// says, device by device and family by family, whether a family can present
/// to it), that device must also be able to present, else no device is picked.
pub fn pick_optimal(
    devices: &Vec<PhysicalDevice>,
    surface_support: Option<&Vec<Vec<bool>>>,
    required_features: Features,
) -> (r: Option<usize>)
    requires
        forall|i: int| 0 <= i < devices.len() ==> #[trigger] devices@[i].queue_families.len() <= u32::MAX,
        match surface_support {
            Some(s) => s.len() == devices.len() && forall|i: int|
                0 <= i < devices.len() ==> (#[trigger] s@[i]).len() == devices@[i].queue_families.len(),
            None => true,
        },
    ensures
        r == (match picked_device(
            devices@,
            required_features,
            match surface_support {
                Some(s) => Some(s@.map_values(|v: Vec<bool>| v@)),
                None => None,
            },
        ) {
            Some(i) => Some(i as usize),
            None => None::<usize>,
        }),
{
    let n = devices.len();
    let mut i: usize = 0;
    while i < n
        invariant
            n == devices.len(),
            i <= n,
            forall|k: int| 0 <= k < devices.len() ==> #[trigger] devices@[k].queue_families.len() <= u32::MAX,
            match surface_support {
                Some(s) => s.len() == devices.len() && forall|k: int|
                    0 <= k < devices.len() ==> (#[trigger] s@[k]).len() == devices@[k].queue_families.len(),
                None => true,
            },
            first_suitable_from(devices@, required_features, 0)
                == first_suitable_from(devices@, required_features, i as int),
        decreases n - i,
    {
        let device = &devices[i];
        let unified_queue = device.get_unified_queue().is_some();
        if unified_queue && device.features.contains(required_features) {
            match surface_support {
                Some(s) => {
                    let present_support = device.get_present_queue(&s[i]).is_some();
                    proof {
                        assert(s@.map_values(|v: Vec<bool>| v@)[i as int] == s@[i as int]@);
                    }
                    if present_support {
                        return Some(i);
                    }
                    return None;
                },
                None => {
                    return Some(i);
                },
            }
        }
        i = i + 1;
    }
    None
}

/// What the library keeps of a device's properties.
#[derive(Debug)]
pub struct PhysicalDeviceProperties {
    name: String,
    vendor_id: u32,
    driver_version: u32,
}

/// The name of the vendor with this PCI vendor id.
pub open spec fn vendor_name(vendor_id: u32) -> Seq<char> {
    if vendor_id == 0x1002 {
        "AMD"@
    } else if vendor_id == 0x10DE {
        "Nvidia"@
    } else if vendor_id == 0x8086 {
        "Intel"@
    } else if vendor_id == 0x13B5 {
        "ARM"@
    } else {
        "Unknown"@
    }
}

/// The length of a NUL-terminated device name: the index of its first zero byte.
pub fn device_name_len(raw: &[i8]) -> (len: usize)
    requires
        exists|i: int| 0 <= i < raw@.len() && raw@[i] == 0,
    ensures
        len < raw@.len(),
        raw@[len as int] == 0,
        forall|j: int| 0 <= j < len ==> raw@[j] != 0,
{
    let mut i: usize = 0;
    while i < raw.len()
        invariant
            i <= raw@.len(),
            forall|j: int| 0 <= j < i ==> raw@[j] != 0,
            exists|k: int| 0 <= k < raw@.len() && raw@[k] == 0,
        decreases raw@.len() - i,
    {
        if raw[i] == 0 {
            return i;
        }
        i = i + 1;
    }
    i
}

impl PhysicalDeviceProperties {
    /// Properties with this name, vendor id and driver version.
    pub fn new(name: String, vendor_id: u32, driver_version: u32) -> (p: Self)
        ensures
            p.name_view() == name@,
            p.vendor_id_view() == vendor_id,
            p.driver_version_view() == driver_version,
    {
        PhysicalDeviceProperties { name, vendor_id, driver_version }
    }

    /// The device's name.
    pub closed spec fn name_view(&self) -> Seq<char> {
        self.name@
    }

    /// The device's PCI vendor id.
    pub closed spec fn vendor_id_view(&self) -> u32 {
        self.vendor_id
    }

    /// The driver's version.
    pub closed spec fn driver_version_view(&self) -> u32 {
        self.driver_version
    }

    /// The device's name.
    pub fn name(&self) -> (s: &str)
        ensures
            s@ == self.name_view(),
    {
        self.name.as_str()
    }

    /// The device's PCI vendor id.
    pub fn vendor_id(&self) -> (v: u32)
        ensures
            v == self.vendor_id_view(),
    {
        self.vendor_id
    }

    /// The driver's version.
    pub fn driver_version(&self) -> (v: u32)
        ensures
            v == self.driver_version_view(),
    {
        self.driver_version
    }

    /// The name of the device's vendor: AMD, Nvidia, Intel, ARM, or Unknown.
    pub fn vendor_string(&self) -> (s: &'static str)
        ensures
            s@ == vendor_name(self.vendor_id_view()),
    {
        match self.vendor_id {
            0x1002 => "AMD",
            0x10DE => "Nvidia",
            0x8086 => "Intel",
            0x13B5 => "ARM",
            _ => "Unknown",
        }
    }
}

/// The logical device as the library sees it: the physical device it was
/// made on, that device's properties, and the unified queue family it uses.
pub struct Device {
    physical_device: PhysicalDevice,
    device_properties: PhysicalDeviceProperties,
    unified_queue_ix: u32,
}

impl Device {
    /// The device made on `physical_device`; it uses the first unified queue family.
    pub fn new(physical_device: PhysicalDevice, device_properties: PhysicalDeviceProperties) -> (d: Self)
        requires
            physical_device.queue_families.len() <= u32::MAX,
            first_unified_from(physical_device.queue_families@, 0) is Some,
        ensures
            d.physical_device_view() == physical_device,
            d.properties_view() == device_properties,
            d.unified_queue_ix_view() as int == first_unified_from(physical_device.queue_families@, 0)->0,
    {
        proof {
            lemma_first_unified(physical_device.queue_families@, 0);
        }
        let unified_queue_ix = match physical_device.get_unified_queue() {
            Some(ix) => ix,
            None => 0,
        };
        Device { physical_device, device_properties, unified_queue_ix }
    }

    /// The physical device the device was made on.
    pub closed spec fn physical_device_view(&self) -> PhysicalDevice {
        self.physical_device
    }

    /// The properties of the physical device.
    pub closed spec fn properties_view(&self) -> PhysicalDeviceProperties {
        self.device_properties
    }

    /// The index of the unified queue family the device uses.
    pub closed spec fn unified_queue_ix_view(&self) -> u32 {
        self.unified_queue_ix
    }

    /// The index of the unified queue family the device uses.
    pub fn unified_queue_ix(&self) -> (ix: u32)
        ensures
            ix == self.unified_queue_ix_view(),
    {
        self.unified_queue_ix
    }

    /// The physical device the device was made on.
    pub fn physical_device(&self) -> (p: &PhysicalDevice)
        ensures
            *p == self.physical_device_view(),
    {
        &self.physical_device
    }

    /// The name of the device's vendor.
    pub fn vendor(&self) -> (s: &str)
        ensures
            s@ == vendor_name(self.properties_view().vendor_id_view()),
    {
        self.device_properties.vendor_string()
    }

    /// The device's name.
    pub fn model(&self) -> (s: &str)
        ensures
            s@ == self.properties_view().name_view(),
    {
        self.device_properties.name()
    }

    /// The features the physical device supports.
    pub fn features(&self) -> (f: Features)
        ensures
            f == self.physical_device_view().features,
    {
        self.physical_device.features
    }

    /// Whether the physical device supports every feature of `feature`.
    pub fn is_feature_supported(&self, feature: Features) -> (b: bool)
        ensures
            b == (self.physical_device_view().features.value() & feature.value() == feature.value()),
    {
        self.physical_device.features.contains(feature)
    }

    /// The depth/stencil format the device uses; `properties` holds what the
    /// driver reports of each of `depth_stencil_candidates()`, in order.
    pub fn supported_depth_stencil_format(&self, properties: &Vec<FormatProperties>) -> (f: i32)
        requires
            properties.len() == depth_stencil_candidates_spec().len(),
            chosen_depth_format(depth_stencil_candidates_spec(), properties@) is Some,
        ensures
            f == chosen_depth_format(depth_stencil_candidates_spec(), properties@)->0,
    {
        let candidates = depth_stencil_candidates();
        self.pick_depth_format(&candidates, properties)
    }

    /// The depth-only format the device uses; `properties` holds what the
    /// driver reports of each of `depth_only_candidates()`, in order.
    pub fn supported_depth_only_format(&self, properties: &Vec<FormatProperties>) -> (f: i32)
        requires
            properties.len() == depth_only_candidates_spec().len(),
            chosen_depth_format(depth_only_candidates_spec(), properties@) is Some,
        ensures
            f == chosen_depth_format(depth_only_candidates_spec(), properties@)->0,
    {
        let candidates = depth_only_candidates();
        self.pick_depth_format(&candidates, properties)
    }

    /// The first candidate usable as a depth attachment with optimal tiling,
    /// else the first with linear tiling.
    fn pick_depth_format(&self, candidates: &Vec<i32>, properties: &Vec<FormatProperties>) -> (f: i32)
        requires
            properties.len() == candidates.len(),
            chosen_depth_format(candidates@, properties@) is Some,
        ensures
            f == chosen_depth_format(candidates@, properties@)->0,
    {
        let optimal_tiling = self.physical_device.get_supported_depth_stencil_format(
            candidates,
            properties,
            ImageTiling::Optimal,
            FORMAT_FEATURE_DEPTH_STENCIL_ATTACHMENT,
        );
        let linear_tiling = self.physical_device.get_supported_depth_stencil_format(
            candidates,
            properties,
            ImageTiling::Linear,
            FORMAT_FEATURE_DEPTH_STENCIL_ATTACHMENT,
        );
        match optimal_tiling {
            Some(f) => f,
            None => match linear_tiling {
                Some(f) => f,
                None => 0,
            },
        }
    }
}

/// A device that is picked is suitable: it has a unified queue family and
/// every required feature, and no device before it is suitable.
pub proof fn law_picked_device_is_suitable(
    devices: Seq<PhysicalDevice>,
    required: Features,
    surface_support: Option<Seq<Seq<bool>>>,
    i: int,
)
    requires
        picked_device(devices, required, surface_support) == Some(i),
    ensures
        0 <= i < devices.len(),
        is_suitable(devices[i], required),
        forall|j: int| 0 <= j < i ==> !is_suitable(#[trigger] devices[j], required),
{
    lemma_first_suitable(devices, required, 0);
}

/// What `first_suitable_from` finds from `k` on is the first suitable device from `k` on.
proof fn lemma_first_suitable(devices: Seq<PhysicalDevice>, required: Features, k: int)
    requires
        0 <= k,
    ensures
        match first_suitable_from(devices, required, k) {
            Some(i) => k <= i < devices.len() && is_suitable(devices[i], required) && forall|j: int|
                k <= j < i ==> !is_suitable(#[trigger] devices[j], required),
            None => forall|j: int| k <= j < devices.len() ==> !is_suitable(#[trigger] devices[j], required),
        },
    decreases devices.len() - k,
{
    if k < devices.len() {
        lemma_first_suitable(devices, required, k + 1);
    }
}

/// The unified queue family that is found takes graphics, compute and
/// transfer work, and no family before it does.
pub proof fn law_unified_queue_is_first_unified(families: Seq<u32>, i: int)
    requires
        first_unified_from(families, 0) == Some(i),
    ensures
        0 <= i < families.len(),
        families[i] & QUEUE_GRAPHICS == QUEUE_GRAPHICS,
        families[i] & QUEUE_COMPUTE == QUEUE_COMPUTE,
        families[i] & QUEUE_TRANSFER == QUEUE_TRANSFER,
        forall|j: int| 0 <= j < i ==> !is_unified(#[trigger] families[j]),
{
    lemma_first_unified(families, 0);
    let f = families[i];
    assert(f & 7u32 == 7u32 ==> f & 1u32 == 1u32 && f & 2u32 == 2u32 && f & 4u32 == 4u32) by (bit_vector);
}

/// What `first_unified_from` finds from `k` on is the first unified family from `k` on.
proof fn lemma_first_unified(families: Seq<u32>, k: int)
    requires
        0 <= k,
    ensures
        match first_unified_from(families, k) {
            Some(i) => k <= i < families.len() && is_unified(families[i]) && forall|j: int|
                k <= j < i ==> !is_unified(#[trigger] families[j]),
            None => forall|j: int| k <= j < families.len() ==> !is_unified(#[trigger] families[j]),
        },
    decreases families.len() - k,
{
    if k < families.len() {
        lemma_first_unified(families, k + 1);
    }
}

/// A picked device has every required feature, feature by feature, and a
/// queue family that takes graphics, compute and transfer work; where there
/// is a surface, one of its families can present to it. Where no device has
/// all the required features, none is picked.
pub proof fn law_picked_device_has_every_required_feature(
    devices: Seq<PhysicalDevice>,
    required: Features,
    surface_support: Option<Seq<Seq<bool>>>,
)
    ensures
        forall|i: int| #![trigger picked_device(devices, required, surface_support), devices[i]]
            picked_device(devices, required, surface_support) == Some(i) ==> {
                &&& 0 <= i < devices.len()
                &&& devices[i].features.value() & required.value() == required.value()
                &&& forall|k: u64|
                    k < 64 && (required.value() >> k) & 1 == 1 ==> (devices[i].features.value() >> k) & 1 == 1
                &&& exists|q: int|
                    0 <= q < devices[i].queue_families@.len() && (#[trigger] devices[i].queue_families@[q]) & QUEUE_GRAPHICS
                        != 0 && devices[i].queue_families@[q] & QUEUE_COMPUTE != 0
                        && devices[i].queue_families@[q] & QUEUE_TRANSFER != 0
                &&& match surface_support {
                    Some(s) => exists|p: int| 0 <= p < s[i].len() && #[trigger] s[i][p],
                    None => true,
                }
            },
        (forall|i: int|
            0 <= i < devices.len() ==> (#[trigger] devices[i]).features.value() & required.value()
                != required.value()) ==> picked_device(devices, required, surface_support) is None,
{
    lemma_first_suitable(devices, required, 0);
    match picked_device(devices, required, surface_support) {
        Some(i) => {
            let a = devices[i].features.value();
            let r = required.value();
            assert(a & r == r);
            assert forall|k: u64| k < 64 && (r >> k) & 1 == 1 implies (a >> k) & 1 == 1 by {
                assert(a & r == r && k < 64 && (r >> k) & 1 == 1 ==> (a >> k) & 1 == 1) by (bit_vector);
            }
            let fams = devices[i].queue_families@;
            lemma_first_unified(fams, 0);
            let q = first_unified_from(fams, 0)->0;
            let f = fams[q];
            assert(f & 7u32 == 7u32 ==> f & 1u32 != 0 && f & 2u32 != 0 && f & 4u32 != 0) by (bit_vector);
            match surface_support {
                Some(s) => {
                    lemma_first_true(s[i], 0);
                },
                None => {},
            }
        },
        None => {},
    }
}

/// What `first_true_from` finds from `k` on is a `true` entry.
proof fn lemma_first_true(s: Seq<bool>, k: int)
    requires
        0 <= k,
    ensures
        first_true_from(s, k) matches Some(i) ==> k <= i < s.len() && s[i],
    decreases s.len() - k,
{
    if k < s.len() {
        lemma_first_true(s, k + 1);
    }
}

} // verus!
