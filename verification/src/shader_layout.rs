//! What a pipeline layout takes from the reflection of a shader's stages:
//! the Vulkan descriptor type of each reflected binding, and the push-constant
//! ranges, one per distinct block, each used by every stage that declares it.
use vstd::prelude::*;
use crate::bindless::BindlessResource;
use crate::descriptor::DescriptorType;

verus! {

/// The kind of a descriptor as shader reflection reports it.
#[derive(Clone, Copy, Debug, PartialEq, Eq, Structural)]
pub enum ReflectDescriptorType {
    Undefined,
    Sampler,
    CombinedImageSampler,
    SampledImage,
    StorageImage,
    UniformTexelBuffer,
    StorageTexelBuffer,
    UniformBuffer,
    StorageBuffer,
    UniformBufferDynamic,
    StorageBufferDynamic,
    InputAttachment,
    AccelerationStructureKHR,
}

/// The `VkDescriptorType` value of a reflected kind; none for `Undefined`.
pub open spec fn vk_descriptor_type(t: ReflectDescriptorType) -> Option<i32> {
    match t {
        ReflectDescriptorType::Undefined => None,
        ReflectDescriptorType::Sampler => Some(0),
        ReflectDescriptorType::CombinedImageSampler => Some(1),
        ReflectDescriptorType::SampledImage => Some(2),
        ReflectDescriptorType::StorageImage => Some(3),
        ReflectDescriptorType::UniformTexelBuffer => Some(4),
        ReflectDescriptorType::StorageTexelBuffer => Some(5),
        ReflectDescriptorType::UniformBuffer => Some(6),
        ReflectDescriptorType::StorageBuffer => Some(7),
        ReflectDescriptorType::UniformBufferDynamic => Some(8),
        ReflectDescriptorType::StorageBufferDynamic => Some(9),
        ReflectDescriptorType::InputAttachment => Some(10),
        ReflectDescriptorType::AccelerationStructureKHR => Some(1000150000),
    }
}

/// The `VkDescriptorType` value of a reflected kind, which must be defined.
pub fn spirv_desc_type_to_vk_desc_type(t: ReflectDescriptorType) -> (v: i32)
    requires
        t != ReflectDescriptorType::Undefined,
    ensures
        vk_descriptor_type(t) == Some(v),
{
    match t {
        ReflectDescriptorType::Undefined => 0,
        ReflectDescriptorType::Sampler => 0,
        ReflectDescriptorType::CombinedImageSampler => 1,
        ReflectDescriptorType::SampledImage => 2,
        ReflectDescriptorType::StorageImage => 3,
        ReflectDescriptorType::UniformTexelBuffer => 4,
        ReflectDescriptorType::StorageTexelBuffer => 5,
        ReflectDescriptorType::UniformBuffer => 6,
        ReflectDescriptorType::StorageBuffer => 7,
        ReflectDescriptorType::UniformBufferDynamic => 8,
        ReflectDescriptorType::StorageBufferDynamic => 9,
        ReflectDescriptorType::InputAttachment => 10,
        ReflectDescriptorType::AccelerationStructureKHR => 1000150000,
    }
}

/// A push-constant block a stage declares: its byte offset and size.
#[derive(Clone, Copy, Debug, PartialEq, Eq, Structural)]
pub struct PushConstantBlock {
    pub offset: u32,
    pub size: u32,
}

/// The push-constant blocks one stage declares, with the stage's flag bit.
pub struct StagePushConstants {
    pub stage: u32,
    pub blocks: Vec<PushConstantBlock>,
}

/// A push-constant range of a pipeline layout and the stages that use it.
#[derive(Clone, Copy, Debug, PartialEq, Eq, Structural)]
pub struct PushConstantRange {
    pub size: u32,
    pub offset: u32,
    pub stage_flags: u32,
}

/// The first index from `k` on of a range with this offset and size.
pub open spec fn matching_range_from(ranges: Seq<PushConstantRange>, block: PushConstantBlock, k: int) -> Option<int>
    decreases ranges.len() - k,
{
    if k < 0 || k >= ranges.len() {
        None
    } else if ranges[k].offset == block.offset && ranges[k].size == block.size {
        Some(k)
    } else {
        matching_range_from(ranges, block, k + 1)
    }
}

/// `ranges` with a block of `stage` added: the stage joins the first range
/// with the same offset and size, or a new range comes last.
pub open spec fn add_block(ranges: Seq<PushConstantRange>, block: PushConstantBlock, stage: u32) -> Seq<
    PushConstantRange,
> {
    match matching_range_from(ranges, block, 0) {
        Some(k) => ranges.update(
            k,
            PushConstantRange { size: ranges[k].size, offset: ranges[k].offset, stage_flags: ranges[k].stage_flags | stage },
        ),
        None => ranges.push(PushConstantRange { size: block.size, offset: block.offset, stage_flags: stage }),
    }
}

/// `ranges` with the blocks of one stage added in order.
pub open spec fn add_blocks(ranges: Seq<PushConstantRange>, blocks: Seq<PushConstantBlock>, stage: u32) -> Seq<
    PushConstantRange,
>
    decreases blocks.len(),
{
    if blocks.len() == 0 {
        ranges
    } else {
        add_block(add_blocks(ranges, blocks.drop_last(), stage), blocks.last(), stage)
    }
}

/// The push-constant ranges of the stages, stage by stage and block by block.
pub open spec fn push_constant_ranges(stages: Seq<(u32, Seq<PushConstantBlock>)>) -> Seq<PushConstantRange>
    decreases stages.len(),
{
    if stages.len() == 0 {
        Seq::empty()
    } else {
        add_blocks(push_constant_ranges(stages.drop_last()), stages.last().1, stages.last().0)
    }
}

/// The view of the stages' push-constant blocks.
pub open spec fn stages_view(stages: Seq<StagePushConstants>) -> Seq<(u32, Seq<PushConstantBlock>)> {
    stages.map_values(|s: StagePushConstants| (s.stage, s.blocks@))
}

/// The index of the first range with the block's offset and size.
fn find_range(ranges: &Vec<PushConstantRange>, block: PushConstantBlock) -> (r: Option<usize>)
    ensures
        match r {
            Some(k) => matching_range_from(ranges@, block, 0) == Some(k as int),
            None => matching_range_from(ranges@, block, 0) is None,
        },
{
    let mut k: usize = 0;
    while k < ranges.len()
        invariant
            k <= ranges@.len(),
            matching_range_from(ranges@, block, 0) == matching_range_from(ranges@, block, k as int),
        decreases ranges@.len() - k,
    {
        if ranges[k].offset == block.offset && ranges[k].size == block.size {
            return Some(k);
        }
        k = k + 1;
    }
    None
}

/// The push-constant ranges of a pipeline layout: one per distinct offset
/// and size among the stages' blocks, in the order first declared, each
/// with the flags of every stage that declares it.
pub fn generate_push_constant_ranges(stages: &Vec<StagePushConstants>) -> (ranges: Vec<PushConstantRange>)
    ensures
        ranges@ == push_constant_ranges(stages_view(stages@)),
{
    let mut ranges: Vec<PushConstantRange> = Vec::new();
    let mut i: usize = 0;
    while i < stages.len()
        invariant
            i <= stages@.len(),
            ranges@ == push_constant_ranges(stages_view(stages@).take(i as int)),
        decreases stages@.len() - i,
    {
        let stage = &stages[i];
        let ghost before = ranges@;
        let mut j: usize = 0;
        while j < stage.blocks.len()
            invariant
                j <= stage.blocks@.len(),
                ranges@ == add_blocks(before, stage.blocks@.take(j as int), stage.stage),
            decreases stage.blocks@.len() - j,
        {
            let block = stage.blocks[j];
            proof {
                assert(stage.blocks@.take(j + 1).drop_last() =~= stage.blocks@.take(j as int));
            }
            match find_range(&ranges, block) {
                Some(k) => {
                    proof {
                        lemma_matching_range(ranges@, block, 0);
                    }
                    let existing = ranges[k];
                    ranges.set(
                        k,
                        PushConstantRange {
                            size: existing.size,
                            offset: existing.offset,
                            stage_flags: existing.stage_flags | stage.stage,
                        },
                    );
                },
                None => {
                    ranges.push(PushConstantRange { size: block.size, offset: block.offset, stage_flags: stage.stage });
                },
            }
            j = j + 1;
        }
        proof {
            let sv = stages_view(stages@);
            assert(stage.blocks@.take(stage.blocks@.len() as int) =~= stage.blocks@);
            assert(sv.take(i + 1).drop_last() =~= sv.take(i as int));
            assert(sv.take(i + 1).last() == (stage.stage, stage.blocks@));
        }
        i = i + 1;
    }
    proof {
        assert(stages_view(stages@).take(stages@.len() as int) =~= stages_view(stages@));
    }
    ranges
}

/// No two ranges share an offset and a size.
pub open spec fn distinct_ranges(ranges: Seq<PushConstantRange>) -> bool {
    forall|a: int, b: int|
        0 <= a < b < ranges.len() ==> !(ranges[a].offset == ranges[b].offset && ranges[a].size == ranges[b].size)
}

/// Each push-constant block becomes one range: however many stages declare
/// a block, the ranges never repeat an offset and size.
pub proof fn law_ranges_are_distinct(stages: Seq<(u32, Seq<PushConstantBlock>)>)
    ensures
        distinct_ranges(push_constant_ranges(stages)),
    decreases stages.len(),
{
    if stages.len() > 0 {
        law_ranges_are_distinct(stages.drop_last());
        lemma_add_blocks_distinct(push_constant_ranges(stages.drop_last()), stages.last().1, stages.last().0);
    }
}

/// Adding blocks keeps the ranges distinct.
proof fn lemma_add_blocks_distinct(ranges: Seq<PushConstantRange>, blocks: Seq<PushConstantBlock>, stage: u32)
    requires
        distinct_ranges(ranges),
    ensures
        distinct_ranges(add_blocks(ranges, blocks, stage)),
    decreases blocks.len(),
{
    if blocks.len() > 0 {
        let prev = add_blocks(ranges, blocks.drop_last(), stage);
        lemma_add_blocks_distinct(ranges, blocks.drop_last(), stage);
        let b = blocks.last();
        lemma_matching_range(prev, b, 0);
        let next = add_block(prev, b, stage);
        assert forall|x: int, y: int| 0 <= x < y < next.len() implies !(next[x].offset == next[y].offset
            && next[x].size == next[y].size) by {
            if y == prev.len() {
                assert(next[y].offset == b.offset && next[y].size == b.size);
                assert(next[x] == prev[x]);
            } else {
                assert(next[x].offset == prev[x].offset && next[x].size == prev[x].size);
                assert(next[y].offset == prev[y].offset && next[y].size == prev[y].size);
            }
        }
    }
}

/// What `matching_range_from` finds from `k` on is the first match from `k` on.
proof fn lemma_matching_range(ranges: Seq<PushConstantRange>, block: PushConstantBlock, k: int)
    requires
        0 <= k,
    ensures
        match matching_range_from(ranges, block, k) {
            Some(i) => k <= i < ranges.len() && ranges[i].offset == block.offset && ranges[i].size == block.size,
            None => forall|j: int|
                k <= j < ranges.len() ==> !(#[trigger] ranges[j].offset == block.offset && ranges[j].size == block.size),
        },
    decreases ranges.len() - k,
{
    if k < ranges.len() {
        lemma_matching_range(ranges, block, k + 1);
    }
}

/// Vulkan `VK_DESCRIPTOR_TYPE_SAMPLER`.
pub const VK_DESCRIPTOR_TYPE_SAMPLER: i32 = 0;

/// Vulkan `VK_DESCRIPTOR_TYPE_COMBINED_IMAGE_SAMPLER`.
pub const VK_DESCRIPTOR_TYPE_COMBINED_IMAGE_SAMPLER: i32 = 1;

/// Vulkan `VK_DESCRIPTOR_TYPE_SAMPLED_IMAGE`.
pub const VK_DESCRIPTOR_TYPE_SAMPLED_IMAGE: i32 = 2;

/// Vulkan `VK_DESCRIPTOR_TYPE_STORAGE_IMAGE`.
pub const VK_DESCRIPTOR_TYPE_STORAGE_IMAGE: i32 = 3;

/// Vulkan `VK_DESCRIPTOR_TYPE_UNIFORM_TEXEL_BUFFER`.
pub const VK_DESCRIPTOR_TYPE_UNIFORM_TEXEL_BUFFER: i32 = 4;

/// Vulkan `VK_DESCRIPTOR_TYPE_STORAGE_TEXEL_BUFFER`.
pub const VK_DESCRIPTOR_TYPE_STORAGE_TEXEL_BUFFER: i32 = 5;

/// Vulkan `VK_DESCRIPTOR_TYPE_UNIFORM_BUFFER`.
pub const VK_DESCRIPTOR_TYPE_UNIFORM_BUFFER: i32 = 6;

/// Vulkan `VK_DESCRIPTOR_TYPE_STORAGE_BUFFER`.
pub const VK_DESCRIPTOR_TYPE_STORAGE_BUFFER: i32 = 7;

/// Vulkan `VK_DESCRIPTOR_TYPE_UNIFORM_BUFFER_DYNAMIC`.
pub const VK_DESCRIPTOR_TYPE_UNIFORM_BUFFER_DYNAMIC: i32 = 8;

/// Vulkan `VK_DESCRIPTOR_TYPE_STORAGE_BUFFER_DYNAMIC`.
pub const VK_DESCRIPTOR_TYPE_STORAGE_BUFFER_DYNAMIC: i32 = 9;

/// Vulkan `VK_DESCRIPTOR_TYPE_INPUT_ATTACHMENT`.
pub const VK_DESCRIPTOR_TYPE_INPUT_ATTACHMENT: i32 = 10;

/// Vulkan `VK_DESCRIPTOR_TYPE_ACCELERATION_STRUCTURE_KHR`.
pub const VK_DESCRIPTOR_TYPE_ACCELERATION_STRUCTURE_KHR: i32 = 1000150000;

/// Each reflected kind of descriptor gets the Vulkan descriptor type of the
/// same name, and only `Undefined` gets none.
pub proof fn law_descriptor_type_of_the_same_name(t: ReflectDescriptorType)
    ensures
        vk_descriptor_type(t) is None <==> t == ReflectDescriptorType::Undefined,
        t == ReflectDescriptorType::Sampler ==> vk_descriptor_type(t) == Some(VK_DESCRIPTOR_TYPE_SAMPLER),
        t == ReflectDescriptorType::CombinedImageSampler ==> vk_descriptor_type(t) == Some(VK_DESCRIPTOR_TYPE_COMBINED_IMAGE_SAMPLER),
        t == ReflectDescriptorType::SampledImage ==> vk_descriptor_type(t) == Some(VK_DESCRIPTOR_TYPE_SAMPLED_IMAGE),
        t == ReflectDescriptorType::StorageImage ==> vk_descriptor_type(t) == Some(VK_DESCRIPTOR_TYPE_STORAGE_IMAGE),
        t == ReflectDescriptorType::UniformTexelBuffer ==> vk_descriptor_type(t) == Some(VK_DESCRIPTOR_TYPE_UNIFORM_TEXEL_BUFFER),
        t == ReflectDescriptorType::StorageTexelBuffer ==> vk_descriptor_type(t) == Some(VK_DESCRIPTOR_TYPE_STORAGE_TEXEL_BUFFER),
        t == ReflectDescriptorType::UniformBuffer ==> vk_descriptor_type(t) == Some(VK_DESCRIPTOR_TYPE_UNIFORM_BUFFER),
        t == ReflectDescriptorType::StorageBuffer ==> vk_descriptor_type(t) == Some(VK_DESCRIPTOR_TYPE_STORAGE_BUFFER),
        t == ReflectDescriptorType::UniformBufferDynamic ==> vk_descriptor_type(t) == Some(VK_DESCRIPTOR_TYPE_UNIFORM_BUFFER_DYNAMIC),
        t == ReflectDescriptorType::StorageBufferDynamic ==> vk_descriptor_type(t) == Some(VK_DESCRIPTOR_TYPE_STORAGE_BUFFER_DYNAMIC),
        t == ReflectDescriptorType::InputAttachment ==> vk_descriptor_type(t) == Some(VK_DESCRIPTOR_TYPE_INPUT_ATTACHMENT),
        t == ReflectDescriptorType::AccelerationStructureKHR ==> vk_descriptor_type(t) == Some(VK_DESCRIPTOR_TYPE_ACCELERATION_STRUCTURE_KHR),
{
}

/// Two defined reflected kinds never get the same Vulkan descriptor type.
pub proof fn law_descriptor_type_is_injective(a: ReflectDescriptorType, b: ReflectDescriptorType)
    requires
        vk_descriptor_type(a) is Some,
        vk_descriptor_type(a) == vk_descriptor_type(b),
    ensures
        a == b,
{
}

/// A reflected binding gets the descriptor type that a set layout and the
/// bindless set use for the kind of the same name.
pub proof fn law_reflected_types_agree_with_set_layouts()
    ensures
        vk_descriptor_type(ReflectDescriptorType::CombinedImageSampler) == Some(
            DescriptorType::CombinedImageSampler.raw_value(),
        ),
        vk_descriptor_type(ReflectDescriptorType::StorageImage) == Some(DescriptorType::StorageImage.raw_value()),
        vk_descriptor_type(ReflectDescriptorType::UniformBuffer) == Some(DescriptorType::UniformBuffer.raw_value()),
        vk_descriptor_type(ReflectDescriptorType::StorageBuffer) == Some(DescriptorType::StorageBuffer.raw_value()),
        vk_descriptor_type(ReflectDescriptorType::CombinedImageSampler) == Some(
            BindlessResource::CombinedImageSampler.descriptor_type_spec(),
        ),
        vk_descriptor_type(ReflectDescriptorType::StorageImage) == Some(
            BindlessResource::StorageImage.descriptor_type_spec(),
        ),
        vk_descriptor_type(ReflectDescriptorType::UniformBuffer) == Some(
            BindlessResource::UniformBuffer.descriptor_type_spec(),
        ),
        vk_descriptor_type(ReflectDescriptorType::StorageBuffer) == Some(
            BindlessResource::StorageBuffer.descriptor_type_spec(),
        ),
{
}

} // verus!
