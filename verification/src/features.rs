//! Optional device features, as the bits of a mask, one bit for each member
//! of `VkPhysicalDeviceFeatures` in declaration order, and the conversions
//! between the mask and the Vulkan structure.
use vstd::prelude::*;

verus! {

/// How many features there are.
pub const FEATURE_COUNT: usize = 55;

pub const ROBUST_BUFFER_ACCESS: u64 = 1u64 << 0;
pub const FULL_DRAW_INDEX_UINT32: u64 = 1u64 << 1;
pub const IMAGE_CUBE_ARRAY: u64 = 1u64 << 2;
pub const INDEPENDENT_BLEND: u64 = 1u64 << 3;
pub const GEOMETRY_SHADER: u64 = 1u64 << 4;
pub const TESSELLATION_SHADER: u64 = 1u64 << 5;
pub const SAMPLE_RATE_SHADING: u64 = 1u64 << 6;
pub const DUAL_SRC_BLEND: u64 = 1u64 << 7;
pub const LOGIC_OP: u64 = 1u64 << 8;
pub const MULTI_DRAW_INDIRECT: u64 = 1u64 << 9;
pub const DRAW_INDIRECT_FIRST_INSTANCE: u64 = 1u64 << 10;
pub const DEPTH_CLAMP: u64 = 1u64 << 11;
pub const DEPTH_BIAS_CLAMP: u64 = 1u64 << 12;
pub const FILL_MODE_NON_SOLID: u64 = 1u64 << 13;
pub const DEPTH_BOUNDS: u64 = 1u64 << 14;
pub const WIDE_LINES: u64 = 1u64 << 15;
pub const LARGE_POINTS: u64 = 1u64 << 16;
pub const ALPHA_TO_ONE: u64 = 1u64 << 17;
pub const MULTI_VIEWPORT: u64 = 1u64 << 18;
pub const SAMPLER_ANISOTROPY: u64 = 1u64 << 19;
pub const TEXTURE_COMPRESSION_ETC2: u64 = 1u64 << 20;
pub const TEXTURE_COMPRESSION_ASTC_LDR: u64 = 1u64 << 21;
pub const TEXTURE_COMPRESSION_BC: u64 = 1u64 << 22;
pub const OCCLUSION_QUERY_PRECISE: u64 = 1u64 << 23;
pub const PIPELINE_STATISTICS_QUERY: u64 = 1u64 << 24;
pub const VERTEX_PIPELINE_STORES_AND_ATOMICS: u64 = 1u64 << 25;
pub const FRAGMENT_STORES_AND_ATOMICS: u64 = 1u64 << 26;
pub const SHADER_TESSELLATION_AND_GEOMETRY_POINT_SIZE: u64 = 1u64 << 27;
pub const SHADER_IMAGE_GATHER_EXTENDED: u64 = 1u64 << 28;
pub const SHADER_STORAGE_IMAGE_EXTENDED_FORMATS: u64 = 1u64 << 29;
pub const SHADER_STORAGE_IMAGE_MULTISAMPLE: u64 = 1u64 << 30;
pub const SHADER_STORAGE_IMAGE_READ_WITHOUT_FORMAT: u64 = 1u64 << 31;
pub const SHADER_STORAGE_IMAGE_WRITE_WITHOUT_FORMAT: u64 = 1u64 << 32;
pub const SHADER_UNIFORM_BUFFER_ARRAY_DYNAMIC_INDEXING: u64 = 1u64 << 33;
pub const SHADER_SAMPLED_IMAGE_ARRAY_DYNAMIC_INDEXING: u64 = 1u64 << 34;
pub const SHADER_STORAGE_BUFFER_ARRAY_DYNAMIC_INDEXING: u64 = 1u64 << 35;
pub const SHADER_STORAGE_IMAGE_ARRAY_DYNAMIC_INDEXING: u64 = 1u64 << 36;
pub const SHADER_CLIP_DISTANCE: u64 = 1u64 << 37;
pub const SHADER_CULL_DISTANCE: u64 = 1u64 << 38;
pub const SHADER_FLOAT64: u64 = 1u64 << 39;
pub const SHADER_INT64: u64 = 1u64 << 40;
pub const SHADER_INT16: u64 = 1u64 << 41;
pub const SHADER_RESOURCE_RESIDENCY: u64 = 1u64 << 42;
pub const SHADER_RESOURCE_MIN_LOD: u64 = 1u64 << 43;
pub const SPARSE_BINDING: u64 = 1u64 << 44;
pub const SPARSE_RESIDENCY_BUFFER: u64 = 1u64 << 45;
pub const SPARSE_RESIDENCY_IMAGE_2D: u64 = 1u64 << 46;
pub const SPARSE_RESIDENCY_IMAGE_3D: u64 = 1u64 << 47;
pub const SPARSE_RESIDENCY_2_SAMPLES: u64 = 1u64 << 48;
pub const SPARSE_RESIDENCY_4_SAMPLES: u64 = 1u64 << 49;
pub const SPARSE_RESIDENCY_8_SAMPLES: u64 = 1u64 << 50;
pub const SPARSE_RESIDENCY_16_SAMPLES: u64 = 1u64 << 51;
pub const SPARSE_RESIDENCY_ALIASED: u64 = 1u64 << 52;
pub const VARIABLE_MULTISAMPLE_RATE: u64 = 1u64 << 53;
pub const INHERITED_QUERIES: u64 = 1u64 << 54;

/// `VkPhysicalDeviceFeatures`: each member is a `VkBool32`, 1 where the
/// feature is on.
#[derive(Clone, Copy, Debug, PartialEq, Eq, Structural)]
pub struct PhysicalDeviceFeatures {
    pub robust_buffer_access: u32,
    pub full_draw_index_uint32: u32,
    pub image_cube_array: u32,
    pub independent_blend: u32,
    pub geometry_shader: u32,
    pub tessellation_shader: u32,
    pub sample_rate_shading: u32,
    pub dual_src_blend: u32,
    pub logic_op: u32,
    pub multi_draw_indirect: u32,
    pub draw_indirect_first_instance: u32,
    pub depth_clamp: u32,
    pub depth_bias_clamp: u32,
    pub fill_mode_non_solid: u32,
    pub depth_bounds: u32,
    pub wide_lines: u32,
    pub large_points: u32,
    pub alpha_to_one: u32,
    pub multi_viewport: u32,
    pub sampler_anisotropy: u32,
    pub texture_compression_etc2: u32,
    pub texture_compression_astc_ldr: u32,
    pub texture_compression_bc: u32,
    pub occlusion_query_precise: u32,
    pub pipeline_statistics_query: u32,
    pub vertex_pipeline_stores_and_atomics: u32,
    pub fragment_stores_and_atomics: u32,
    pub shader_tessellation_and_geometry_point_size: u32,
    pub shader_image_gather_extended: u32,
    pub shader_storage_image_extended_formats: u32,
    pub shader_storage_image_multisample: u32,
    pub shader_storage_image_read_without_format: u32,
    pub shader_storage_image_write_without_format: u32,
    pub shader_uniform_buffer_array_dynamic_indexing: u32,
    pub shader_sampled_image_array_dynamic_indexing: u32,
    pub shader_storage_buffer_array_dynamic_indexing: u32,
    pub shader_storage_image_array_dynamic_indexing: u32,
    pub shader_clip_distance: u32,
    pub shader_cull_distance: u32,
    pub shader_float64: u32,
    pub shader_int64: u32,
    pub shader_int16: u32,
    pub shader_resource_residency: u32,
    pub shader_resource_min_lod: u32,
    pub sparse_binding: u32,
    pub sparse_residency_buffer: u32,
    pub sparse_residency_image2_d: u32,
    pub sparse_residency_image3_d: u32,
    pub sparse_residency2_samples: u32,
    pub sparse_residency4_samples: u32,
    pub sparse_residency8_samples: u32,
    pub sparse_residency16_samples: u32,
    pub sparse_residency_aliased: u32,
    pub variable_multisample_rate: u32,
    pub inherited_queries: u32,
}

/// 1 where bit `i` of `bits` is set, else 0.
pub open spec fn bool32_of(bits: u64, i: int) -> u32 {
    if (bits >> (i as u64)) & 1u64 == 1u64 {
        1u32
    } else {
        0u32
    }
}

impl PhysicalDeviceFeatures {
    /// Member `i`, in declaration order.
    pub open spec fn field(self, i: int) -> u32 {
        if i == 0 {
            self.robust_buffer_access
        } else if i == 1 {
            self.full_draw_index_uint32
        } else if i == 2 {
            self.image_cube_array
        } else if i == 3 {
            self.independent_blend
        } else if i == 4 {
            self.geometry_shader
        } else if i == 5 {
            self.tessellation_shader
        } else if i == 6 {
            self.sample_rate_shading
        } else if i == 7 {
            self.dual_src_blend
        } else if i == 8 {
            self.logic_op
        } else if i == 9 {
            self.multi_draw_indirect
        } else if i == 10 {
            self.draw_indirect_first_instance
        } else if i == 11 {
            self.depth_clamp
        } else if i == 12 {
            self.depth_bias_clamp
        } else if i == 13 {
            self.fill_mode_non_solid
        } else if i == 14 {
            self.depth_bounds
        } else if i == 15 {
            self.wide_lines
        } else if i == 16 {
            self.large_points
        } else if i == 17 {
            self.alpha_to_one
        } else if i == 18 {
            self.multi_viewport
        } else if i == 19 {
            self.sampler_anisotropy
        } else if i == 20 {
            self.texture_compression_etc2
        } else if i == 21 {
            self.texture_compression_astc_ldr
        } else if i == 22 {
            self.texture_compression_bc
        } else if i == 23 {
            self.occlusion_query_precise
        } else if i == 24 {
            self.pipeline_statistics_query
        } else if i == 25 {
            self.vertex_pipeline_stores_and_atomics
        } else if i == 26 {
            self.fragment_stores_and_atomics
        } else if i == 27 {
            self.shader_tessellation_and_geometry_point_size
        } else if i == 28 {
            self.shader_image_gather_extended
        } else if i == 29 {
            self.shader_storage_image_extended_formats
        } else if i == 30 {
            self.shader_storage_image_multisample
        } else if i == 31 {
            self.shader_storage_image_read_without_format
        } else if i == 32 {
            self.shader_storage_image_write_without_format
        } else if i == 33 {
            self.shader_uniform_buffer_array_dynamic_indexing
        } else if i == 34 {
            self.shader_sampled_image_array_dynamic_indexing
        } else if i == 35 {
            self.shader_storage_buffer_array_dynamic_indexing
        } else if i == 36 {
            self.shader_storage_image_array_dynamic_indexing
        } else if i == 37 {
            self.shader_clip_distance
        } else if i == 38 {
            self.shader_cull_distance
        } else if i == 39 {
            self.shader_float64
        } else if i == 40 {
            self.shader_int64
        } else if i == 41 {
            self.shader_int16
        } else if i == 42 {
            self.shader_resource_residency
        } else if i == 43 {
            self.shader_resource_min_lod
        } else if i == 44 {
            self.sparse_binding
        } else if i == 45 {
            self.sparse_residency_buffer
        } else if i == 46 {
            self.sparse_residency_image2_d
        } else if i == 47 {
            self.sparse_residency_image3_d
        } else if i == 48 {
            self.sparse_residency2_samples
        } else if i == 49 {
            self.sparse_residency4_samples
        } else if i == 50 {
            self.sparse_residency8_samples
        } else if i == 51 {
            self.sparse_residency16_samples
        } else if i == 52 {
            self.sparse_residency_aliased
        } else if i == 53 {
            self.variable_multisample_rate
        } else {
            self.inherited_queries
        }
    }

    /// Every member is 0 or 1.
    pub open spec fn is_boolean(self) -> bool {
        forall|i: int| 0 <= i < FEATURE_COUNT ==> #[trigger] self.field(i) <= 1
    }

    /// Member `i`.
    fn field_value(&self, i: usize) -> (v: u32)
        requires
            i < FEATURE_COUNT,
        ensures
            v == self.field(i as int),
    {
        match i {
            0 => self.robust_buffer_access,
            1 => self.full_draw_index_uint32,
            2 => self.image_cube_array,
            3 => self.independent_blend,
            4 => self.geometry_shader,
            5 => self.tessellation_shader,
            6 => self.sample_rate_shading,
            7 => self.dual_src_blend,
            8 => self.logic_op,
            9 => self.multi_draw_indirect,
            10 => self.draw_indirect_first_instance,
            11 => self.depth_clamp,
            12 => self.depth_bias_clamp,
            13 => self.fill_mode_non_solid,
            14 => self.depth_bounds,
            15 => self.wide_lines,
            16 => self.large_points,
            17 => self.alpha_to_one,
            18 => self.multi_viewport,
            19 => self.sampler_anisotropy,
            20 => self.texture_compression_etc2,
            21 => self.texture_compression_astc_ldr,
            22 => self.texture_compression_bc,
            23 => self.occlusion_query_precise,
            24 => self.pipeline_statistics_query,
            25 => self.vertex_pipeline_stores_and_atomics,
            26 => self.fragment_stores_and_atomics,
            27 => self.shader_tessellation_and_geometry_point_size,
            28 => self.shader_image_gather_extended,
            29 => self.shader_storage_image_extended_formats,
            30 => self.shader_storage_image_multisample,
            31 => self.shader_storage_image_read_without_format,
            32 => self.shader_storage_image_write_without_format,
            33 => self.shader_uniform_buffer_array_dynamic_indexing,
            34 => self.shader_sampled_image_array_dynamic_indexing,
            35 => self.shader_storage_buffer_array_dynamic_indexing,
            36 => self.shader_storage_image_array_dynamic_indexing,
            37 => self.shader_clip_distance,
            38 => self.shader_cull_distance,
            39 => self.shader_float64,
            40 => self.shader_int64,
            41 => self.shader_int16,
            42 => self.shader_resource_residency,
            43 => self.shader_resource_min_lod,
            44 => self.sparse_binding,
            45 => self.sparse_residency_buffer,
            46 => self.sparse_residency_image2_d,
            47 => self.sparse_residency_image3_d,
            48 => self.sparse_residency2_samples,
            49 => self.sparse_residency4_samples,
            50 => self.sparse_residency8_samples,
            51 => self.sparse_residency16_samples,
            52 => self.sparse_residency_aliased,
            53 => self.variable_multisample_rate,
            _ => self.inherited_queries,
        }
    }

    /// Sets member `i` to `v`.
    fn set_field(&mut self, i: usize, v: u32)
        requires
            i < FEATURE_COUNT,
        ensures
            forall|j: int| 0 <= j < FEATURE_COUNT ==> #[trigger] final(self).field(j) == if j == i {
                v
            } else {
                old(self).field(j)
            },
    {
        match i {
            0 => {
                self.robust_buffer_access = v;
            },
            1 => {
                self.full_draw_index_uint32 = v;
            },
            2 => {
                self.image_cube_array = v;
            },
            3 => {
                self.independent_blend = v;
            },
            4 => {
                self.geometry_shader = v;
            },
            5 => {
                self.tessellation_shader = v;
            },
            6 => {
                self.sample_rate_shading = v;
            },
            7 => {
                self.dual_src_blend = v;
            },
            8 => {
                self.logic_op = v;
            },
            9 => {
                self.multi_draw_indirect = v;
            },
            10 => {
                self.draw_indirect_first_instance = v;
            },
            11 => {
                self.depth_clamp = v;
            },
            12 => {
                self.depth_bias_clamp = v;
            },
            13 => {
                self.fill_mode_non_solid = v;
            },
            14 => {
                self.depth_bounds = v;
            },
            15 => {
                self.wide_lines = v;
            },
            16 => {
                self.large_points = v;
            },
            17 => {
                self.alpha_to_one = v;
            },
            18 => {
                self.multi_viewport = v;
            },
            19 => {
                self.sampler_anisotropy = v;
            },
            20 => {
                self.texture_compression_etc2 = v;
            },
            21 => {
                self.texture_compression_astc_ldr = v;
            },
            22 => {
                self.texture_compression_bc = v;
            },
            23 => {
                self.occlusion_query_precise = v;
            },
            24 => {
                self.pipeline_statistics_query = v;
            },
            25 => {
                self.vertex_pipeline_stores_and_atomics = v;
            },
            26 => {
                self.fragment_stores_and_atomics = v;
            },
            27 => {
                self.shader_tessellation_and_geometry_point_size = v;
            },
            28 => {
                self.shader_image_gather_extended = v;
            },
            29 => {
                self.shader_storage_image_extended_formats = v;
            },
            30 => {
                self.shader_storage_image_multisample = v;
            },
            31 => {
                self.shader_storage_image_read_without_format = v;
            },
            32 => {
                self.shader_storage_image_write_without_format = v;
            },
            33 => {
                self.shader_uniform_buffer_array_dynamic_indexing = v;
            },
            34 => {
                self.shader_sampled_image_array_dynamic_indexing = v;
            },
            35 => {
                self.shader_storage_buffer_array_dynamic_indexing = v;
            },
            36 => {
                self.shader_storage_image_array_dynamic_indexing = v;
            },
            37 => {
                self.shader_clip_distance = v;
            },
            38 => {
                self.shader_cull_distance = v;
            },
            39 => {
                self.shader_float64 = v;
            },
            40 => {
                self.shader_int64 = v;
            },
            41 => {
                self.shader_int16 = v;
            },
            42 => {
                self.shader_resource_residency = v;
            },
            43 => {
                self.shader_resource_min_lod = v;
            },
            44 => {
                self.sparse_binding = v;
            },
            45 => {
                self.sparse_residency_buffer = v;
            },
            46 => {
                self.sparse_residency_image2_d = v;
            },
            47 => {
                self.sparse_residency_image3_d = v;
            },
            48 => {
                self.sparse_residency2_samples = v;
            },
            49 => {
                self.sparse_residency4_samples = v;
            },
            50 => {
                self.sparse_residency8_samples = v;
            },
            51 => {
                self.sparse_residency16_samples = v;
            },
            52 => {
                self.sparse_residency_aliased = v;
            },
            53 => {
                self.variable_multisample_rate = v;
            },
            _ => {
                self.inherited_queries = v;
            },
        }
    }

    /// Every feature off.
    pub fn none() -> (p: Self)
        ensures
            forall|i: int| 0 <= i < FEATURE_COUNT ==> #[trigger] p.field(i) == 0,
    {
        PhysicalDeviceFeatures {
            robust_buffer_access: 0,
            full_draw_index_uint32: 0,
            image_cube_array: 0,
            independent_blend: 0,
            geometry_shader: 0,
            tessellation_shader: 0,
            sample_rate_shading: 0,
            dual_src_blend: 0,
            logic_op: 0,
            multi_draw_indirect: 0,
            draw_indirect_first_instance: 0,
            depth_clamp: 0,
            depth_bias_clamp: 0,
            fill_mode_non_solid: 0,
            depth_bounds: 0,
            wide_lines: 0,
            large_points: 0,
            alpha_to_one: 0,
            multi_viewport: 0,
            sampler_anisotropy: 0,
            texture_compression_etc2: 0,
            texture_compression_astc_ldr: 0,
            texture_compression_bc: 0,
            occlusion_query_precise: 0,
            pipeline_statistics_query: 0,
            vertex_pipeline_stores_and_atomics: 0,
            fragment_stores_and_atomics: 0,
            shader_tessellation_and_geometry_point_size: 0,
            shader_image_gather_extended: 0,
            shader_storage_image_extended_formats: 0,
            shader_storage_image_multisample: 0,
            shader_storage_image_read_without_format: 0,
            shader_storage_image_write_without_format: 0,
            shader_uniform_buffer_array_dynamic_indexing: 0,
            shader_sampled_image_array_dynamic_indexing: 0,
            shader_storage_buffer_array_dynamic_indexing: 0,
            shader_storage_image_array_dynamic_indexing: 0,
            shader_clip_distance: 0,
            shader_cull_distance: 0,
            shader_float64: 0,
            shader_int64: 0,
            shader_int16: 0,
            shader_resource_residency: 0,
            shader_resource_min_lod: 0,
            sparse_binding: 0,
            sparse_residency_buffer: 0,
            sparse_residency_image2_d: 0,
            sparse_residency_image3_d: 0,
            sparse_residency2_samples: 0,
            sparse_residency4_samples: 0,
            sparse_residency8_samples: 0,
            sparse_residency16_samples: 0,
            sparse_residency_aliased: 0,
            variable_multisample_rate: 0,
            inherited_queries: 0,
        }
    }
}

/// The features of `p` that are on (member equal to 1), below member `n`,
/// as bits.
pub open spec fn bits_below(p: PhysicalDeviceFeatures, n: int) -> u64
    decreases n,
{
    if n <= 0 {
        0u64
    } else {
        if p.field(n - 1) == 1 {
            bits_below(p, n - 1) | (1u64 << ((n - 1) as u64))
        } else {
            bits_below(p, n - 1)
        }
    }
}

/// The Vulkan structure with member `i` set to 1 exactly where bit `i` of
/// `bits` is set.
pub open spec fn features_struct(bits: u64) -> PhysicalDeviceFeatures {
    PhysicalDeviceFeatures {
        robust_buffer_access: bool32_of(bits, 0),
        full_draw_index_uint32: bool32_of(bits, 1),
        image_cube_array: bool32_of(bits, 2),
        independent_blend: bool32_of(bits, 3),
        geometry_shader: bool32_of(bits, 4),
        tessellation_shader: bool32_of(bits, 5),
        sample_rate_shading: bool32_of(bits, 6),
        dual_src_blend: bool32_of(bits, 7),
        logic_op: bool32_of(bits, 8),
        multi_draw_indirect: bool32_of(bits, 9),
        draw_indirect_first_instance: bool32_of(bits, 10),
        depth_clamp: bool32_of(bits, 11),
        depth_bias_clamp: bool32_of(bits, 12),
        fill_mode_non_solid: bool32_of(bits, 13),
        depth_bounds: bool32_of(bits, 14),
        wide_lines: bool32_of(bits, 15),
        large_points: bool32_of(bits, 16),
        alpha_to_one: bool32_of(bits, 17),
        multi_viewport: bool32_of(bits, 18),
        sampler_anisotropy: bool32_of(bits, 19),
        texture_compression_etc2: bool32_of(bits, 20),
        texture_compression_astc_ldr: bool32_of(bits, 21),
        texture_compression_bc: bool32_of(bits, 22),
        occlusion_query_precise: bool32_of(bits, 23),
        pipeline_statistics_query: bool32_of(bits, 24),
        vertex_pipeline_stores_and_atomics: bool32_of(bits, 25),
        fragment_stores_and_atomics: bool32_of(bits, 26),
        shader_tessellation_and_geometry_point_size: bool32_of(bits, 27),
        shader_image_gather_extended: bool32_of(bits, 28),
        shader_storage_image_extended_formats: bool32_of(bits, 29),
        shader_storage_image_multisample: bool32_of(bits, 30),
        shader_storage_image_read_without_format: bool32_of(bits, 31),
        shader_storage_image_write_without_format: bool32_of(bits, 32),
        shader_uniform_buffer_array_dynamic_indexing: bool32_of(bits, 33),
        shader_sampled_image_array_dynamic_indexing: bool32_of(bits, 34),
        shader_storage_buffer_array_dynamic_indexing: bool32_of(bits, 35),
        shader_storage_image_array_dynamic_indexing: bool32_of(bits, 36),
        shader_clip_distance: bool32_of(bits, 37),
        shader_cull_distance: bool32_of(bits, 38),
        shader_float64: bool32_of(bits, 39),
        shader_int64: bool32_of(bits, 40),
        shader_int16: bool32_of(bits, 41),
        shader_resource_residency: bool32_of(bits, 42),
        shader_resource_min_lod: bool32_of(bits, 43),
        sparse_binding: bool32_of(bits, 44),
        sparse_residency_buffer: bool32_of(bits, 45),
        sparse_residency_image2_d: bool32_of(bits, 46),
        sparse_residency_image3_d: bool32_of(bits, 47),
        sparse_residency2_samples: bool32_of(bits, 48),
        sparse_residency4_samples: bool32_of(bits, 49),
        sparse_residency8_samples: bool32_of(bits, 50),
        sparse_residency16_samples: bool32_of(bits, 51),
        sparse_residency_aliased: bool32_of(bits, 52),
        variable_multisample_rate: bool32_of(bits, 53),
        inherited_queries: bool32_of(bits, 54),
    }
}

/// The mask of all features.
pub open spec fn all_feature_bits() -> u64 {
    0x7f_ffff_ffff_ffffu64
}

/// A set of device features, one bit each.
#[derive(Clone, Copy, Debug, PartialEq, Eq, Hash, Structural)]
pub struct Features {
    pub bits: u64,
}

impl Features {
    /// The bits of the features in the set.
    pub open spec fn value(&self) -> u64 {
        self.bits
    }

    /// No features.
    pub fn empty() -> (f: Self)
        ensures
            f.value() == 0,
    {
        Features { bits: 0 }
    }

    /// The features whose bits are set in `bits`; other bits are dropped.
    pub fn from_bits_truncate(bits: u64) -> (f: Self)
        ensures
            f.value() == bits & all_feature_bits(),
    {
        Features { bits: bits & 0x7f_ffff_ffff_ffffu64 }
    }

    /// The bits of the features in the set.
    pub fn bits(&self) -> (b: u64)
        ensures
            b == self.value(),
    {
        self.bits
    }

    /// Whether every feature of `other` is in the set.
    pub fn contains(&self, other: Features) -> (b: bool)
        ensures
            b == (self.value() & other.value() == other.value()),
    {
        self.bits & other.bits == other.bits
    }

    /// The features of both sets.
    pub fn union(self, other: Features) -> (f: Self)
        ensures
            f.value() == self.value() | other.value(),
    {
        Features { bits: self.bits | other.bits }
    }
}

impl Default for Features {
    /// Anisotropic filtering and non-solid fill modes.
    fn default() -> (f: Self)
        ensures
            f.value() == SAMPLER_ANISOTROPY | FILL_MODE_NON_SOLID,
    {
        Features { bits: SAMPLER_ANISOTROPY | FILL_MODE_NON_SOLID }
    }
}

proof fn lemma_or_bit(b: u64, k: u64, i: u64)
    requires
        k < 64,
        i < 64,
    ensures
        ((b | (1u64 << k)) >> i) & 1u64 == (if i == k {
            1u64
        } else {
            (b >> i) & 1u64
        }),
{
    assert(((b | (1u64 << k)) >> i) & 1u64 == (if i == k {
        1u64
    } else {
        (b >> i) & 1u64
    })) by (bit_vector)
        requires
            k < 64,
            i < 64,
    ;
}

/// Bit `i` of `bits_below(p, n)` is set exactly where `i < n` and member `i`
/// of `p` is 1.
proof fn lemma_bits_below(p: PhysicalDeviceFeatures, n: int)
    requires
        0 <= n <= FEATURE_COUNT,
    ensures
        forall|i: u64|
            i < 64 ==> ((#[trigger] (bits_below(p, n) >> i)) & 1u64 == 1u64 <==> (i < n && p.field(i as int) == 1)),
    decreases n,
{
    if n > 0 {
        lemma_bits_below(p, n - 1);
        let prev = bits_below(p, n - 1);
        assert forall|i: u64| i < 64 implies ((#[trigger] (bits_below(p, n) >> i)) & 1u64 == 1u64 <==> (i < n
            && p.field(i as int) == 1)) by {
            lemma_or_bit(prev, (n - 1) as u64, i);
            assert((prev >> i) & 1u64 == 1u64 <==> (i < n - 1 && p.field(i as int) == 1));
        }
    } else {
        assert forall|i: u64| i < 64 implies ((#[trigger] (bits_below(p, n) >> i)) & 1u64 == 1u64 <==> (i < n
            && p.field(i as int) == 1)) by {
            assert((0u64 >> i) & 1u64 == 0u64) by (bit_vector);
        }
    }
}

impl From<PhysicalDeviceFeatures> for Features {
    /// The features that are on in the Vulkan structure.
    fn from(vk_features: PhysicalDeviceFeatures) -> (f: Features) {
        let mut bits: u64 = 0;
        let mut i: usize = 0;
        while i < FEATURE_COUNT
            invariant
                i <= FEATURE_COUNT,
                bits == bits_below(vk_features, i as int),
            decreases FEATURE_COUNT - i,
        {
            if vk_features.field_value(i) == 1 {
                bits = bits | (1u64 << (i as u64));
            }
            i = i + 1;
        }
        Features { bits }
    }
}

impl vstd::std_specs::convert::FromSpecImpl<PhysicalDeviceFeatures> for Features {
    open spec fn obeys_from_spec() -> bool {
        true
    }

    open spec fn from_spec(vk_features: PhysicalDeviceFeatures) -> Features {
        Features { bits: bits_below(vk_features, FEATURE_COUNT as int) }
    }
}

impl From<Features> for PhysicalDeviceFeatures {
    /// The Vulkan structure with the features of the set on.
    fn from(features: Features) -> (p: PhysicalDeviceFeatures) {
        let mut p = PhysicalDeviceFeatures::none();
        let mut i: usize = 0;
        while i < FEATURE_COUNT
            invariant
                i <= FEATURE_COUNT,
                forall|j: int|
                    0 <= j < FEATURE_COUNT ==> #[trigger] p.field(j) == if j < i {
                        bool32_of(features.bits, j)
                    } else {
                        0u32
                    },
            decreases FEATURE_COUNT - i,
        {
            if (features.bits >> (i as u64)) & 1u64 == 1u64 {
                p.set_field(i, 1);
            }
            i = i + 1;
        }
        proof {
            lemma_features_struct_fields(features.bits);
            lemma_equal_fields(p, features_struct(features.bits));
        }
        p
    }
}

impl vstd::std_specs::convert::FromSpecImpl<Features> for PhysicalDeviceFeatures {
    open spec fn obeys_from_spec() -> bool {
        true
    }

    open spec fn from_spec(features: Features) -> PhysicalDeviceFeatures {
        features_struct(features.value())
    }
}

/// Two structures whose members agree one by one are the same structure.
proof fn lemma_equal_fields(p: PhysicalDeviceFeatures, q: PhysicalDeviceFeatures)
    requires
        forall|i: int| 0 <= i < FEATURE_COUNT ==> #[trigger] p.field(i) == q.field(i),
    ensures
        p == q,
{
    assert(p.field(0) == q.field(0));
    assert(p.field(1) == q.field(1));
    assert(p.field(2) == q.field(2));
    assert(p.field(3) == q.field(3));
    assert(p.field(4) == q.field(4));
    assert(p.field(5) == q.field(5));
    assert(p.field(6) == q.field(6));
    assert(p.field(7) == q.field(7));
    assert(p.field(8) == q.field(8));
    assert(p.field(9) == q.field(9));
    assert(p.field(10) == q.field(10));
    assert(p.field(11) == q.field(11));
    assert(p.field(12) == q.field(12));
    assert(p.field(13) == q.field(13));
    assert(p.field(14) == q.field(14));
    assert(p.field(15) == q.field(15));
    assert(p.field(16) == q.field(16));
    assert(p.field(17) == q.field(17));
    assert(p.field(18) == q.field(18));
    assert(p.field(19) == q.field(19));
    assert(p.field(20) == q.field(20));
    assert(p.field(21) == q.field(21));
    assert(p.field(22) == q.field(22));
    assert(p.field(23) == q.field(23));
    assert(p.field(24) == q.field(24));
    assert(p.field(25) == q.field(25));
    assert(p.field(26) == q.field(26));
    assert(p.field(27) == q.field(27));
    assert(p.field(28) == q.field(28));
    assert(p.field(29) == q.field(29));
    assert(p.field(30) == q.field(30));
    assert(p.field(31) == q.field(31));
    assert(p.field(32) == q.field(32));
    assert(p.field(33) == q.field(33));
    assert(p.field(34) == q.field(34));
    assert(p.field(35) == q.field(35));
    assert(p.field(36) == q.field(36));
    assert(p.field(37) == q.field(37));
    assert(p.field(38) == q.field(38));
    assert(p.field(39) == q.field(39));
    assert(p.field(40) == q.field(40));
    assert(p.field(41) == q.field(41));
    assert(p.field(42) == q.field(42));
    assert(p.field(43) == q.field(43));
    assert(p.field(44) == q.field(44));
    assert(p.field(45) == q.field(45));
    assert(p.field(46) == q.field(46));
    assert(p.field(47) == q.field(47));
    assert(p.field(48) == q.field(48));
    assert(p.field(49) == q.field(49));
    assert(p.field(50) == q.field(50));
    assert(p.field(51) == q.field(51));
    assert(p.field(52) == q.field(52));
    assert(p.field(53) == q.field(53));
    assert(p.field(54) == q.field(54));
}

/// Member `i` of the structure of a set is 1 exactly where bit `i` is set.
proof fn lemma_features_struct_fields(bits: u64)
    ensures
        forall|i: int| 0 <= i < FEATURE_COUNT ==> #[trigger] features_struct(bits).field(i) == bool32_of(bits, i),
{
}

/// Converting a Vulkan structure: a feature is in the set exactly where its
/// member is 1, and the set holds no other bit.
pub proof fn law_features_from_struct(p: PhysicalDeviceFeatures, i: u64)
    requires
        i < 64,
    ensures
        (bits_below(p, FEATURE_COUNT as int) >> i) & 1u64 == 1u64 <==> (i < FEATURE_COUNT && p.field(i as int) == 1),
{
    lemma_bits_below(p, FEATURE_COUNT as int);
}

/// Converting a set to the Vulkan structure and back gives the set again.
pub proof fn law_round_trip_from_set(bits: u64)
    requires
        bits & all_feature_bits() == bits,
    ensures
        bits_below(features_struct(bits), FEATURE_COUNT as int) == bits,
{
    let q = features_struct(bits);
    lemma_mask_prefix(bits, q, FEATURE_COUNT as int);
    assert(((1u64 << 55u64) - 1) as u64 == 0x7f_ffff_ffff_ffffu64) by (bit_vector);
}

proof fn lemma_mask_prefix(bits: u64, q: PhysicalDeviceFeatures, n: int)
    requires
        q == features_struct(bits),
        0 <= n <= FEATURE_COUNT,
    ensures
        bits_below(q, n) == bits & (((1u64 << (n as u64)) - 1) as u64),
    decreases n,
{
    if n == 0 {
        assert(bits & (((1u64 << 0u64) - 1) as u64) == 0u64) by (bit_vector);
    } else {
        lemma_mask_prefix(bits, q, n - 1);
        let k = (n - 1) as u64;
        assert(q.field(n - 1) == bool32_of(bits, n - 1));
        assert((bits >> k) & 1u64 == 1u64 ==> (bits & (((1u64 << k) - 1) as u64)) | (1u64 << k) == bits & (((1u64
            << (k + 1)) - 1) as u64)) by (bit_vector)
            requires
                k < 55,
        ;
        assert((bits >> k) & 1u64 != 1u64 ==> bits & (((1u64 << k) - 1) as u64) == bits & (((1u64 << (k + 1)) - 1)
            as u64)) by (bit_vector)
            requires
                k < 55,
        ;
    }
}

/// Converting a Vulkan structure whose members are all 0 or 1 to a set and
/// back gives the structure again.
pub proof fn law_round_trip_from_struct(p: PhysicalDeviceFeatures)
    requires
        p.is_boolean(),
    ensures
        features_struct(bits_below(p, FEATURE_COUNT as int)) == p,
{
    let b = bits_below(p, FEATURE_COUNT as int);
    lemma_bits_below(p, FEATURE_COUNT as int);
    let q = features_struct(b);
    assert forall|i: int| 0 <= i < FEATURE_COUNT implies #[trigger] q.field(i) == p.field(i) by {
        assert(((b >> (i as u64)) & 1u64 == 1u64) <==> p.field(i) == 1);
        assert(p.field(i) <= 1);
    }
    lemma_equal_fields(q, p);
}

/// The engine's configuration of the graphics device.
#[derive(Debug)]
pub struct GfxConfig {
    pub debug: bool,
    pub features: Features,
    pub vsync: bool,
}

impl Default for GfxConfig {
    /// No validation layers, the default features, no vertical sync.
    fn default() -> (c: Self)
        ensures
            !c.debug,
            c.features.value() == SAMPLER_ANISOTROPY | FILL_MODE_NON_SOLID,
            !c.vsync,
    {
        GfxConfig { debug: false, features: Features::default(), vsync: false }
    }
}

/// How validation messages are treated.
#[derive(Clone, Copy, Debug, PartialEq, Eq, Structural)]
pub struct DebugSettings {
    pub panic_on_validation_error: bool,
}

} // verus!
