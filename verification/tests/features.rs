use hikari::features::{
    DebugSettings, Features, GfxConfig, PhysicalDeviceFeatures, FILL_MODE_NON_SOLID, GEOMETRY_SHADER,
    INHERITED_QUERIES, ROBUST_BUFFER_ACCESS, SAMPLER_ANISOTROPY, SHADER_STORAGE_IMAGE_WRITE_WITHOUT_FORMAT,
};

#[test]
fn struct_members_map_to_bits() {
    let mut p = PhysicalDeviceFeatures::none();
    p.robust_buffer_access = 1;
    p.sampler_anisotropy = 1;
    p.inherited_queries = 1;
    p.geometry_shader = 7;
    let f = Features::from(p);
    assert_eq!(f.bits(), ROBUST_BUFFER_ACCESS | SAMPLER_ANISOTROPY | INHERITED_QUERIES);
    assert!(!f.contains(Features::from_bits_truncate(GEOMETRY_SHADER)));
    assert_eq!(INHERITED_QUERIES, 1 << 54);
    assert_eq!(SHADER_STORAGE_IMAGE_WRITE_WITHOUT_FORMAT, 1 << 32);
}

#[test]
fn bits_map_to_struct_members() {
    let f = Features::from_bits_truncate(GEOMETRY_SHADER | FILL_MODE_NON_SOLID | (1 << 60));
    assert_eq!(f.bits(), GEOMETRY_SHADER | FILL_MODE_NON_SOLID);
    let p = PhysicalDeviceFeatures::from(f);
    assert_eq!(p.geometry_shader, 1);
    assert_eq!(p.fill_mode_non_solid, 1);
    assert_eq!(p.robust_buffer_access, 0);
    assert_eq!(p.inherited_queries, 0);
}

#[test]
fn conversions_round_trip() {
    let f = Features::from_bits_truncate(0x55_5555_5555_5555);
    assert_eq!(Features::from(PhysicalDeviceFeatures::from(f)), f);
    let mut p = PhysicalDeviceFeatures::none();
    p.shader_int64 = 1;
    p.sparse_binding = 1;
    assert_eq!(PhysicalDeviceFeatures::from(Features::from(p)), p);
}

#[test]
fn default_configuration() {
    let d = Features::default();
    assert!(d.contains(Features::from_bits_truncate(SAMPLER_ANISOTROPY)));
    assert!(d.contains(Features::from_bits_truncate(FILL_MODE_NON_SOLID)));
    assert_eq!(d, Features::empty().union(Features::from_bits_truncate(SAMPLER_ANISOTROPY | FILL_MODE_NON_SOLID)));
    let c = GfxConfig::default();
    assert!(!c.debug && !c.vsync);
    assert_eq!(c.features, d);
    let s = DebugSettings { panic_on_validation_error: true };
    assert!(s.panic_on_validation_error);
}
