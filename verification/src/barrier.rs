//! Memory-access kinds of the synchronisation layer, the pipeline stage,
//! access mask and image layout that each needs, and the hazard test that
//! decides whether two successive uses of an image need a barrier.
use vstd::prelude::*;

verus! {

/// Pipeline stage flag bits (`VkPipelineStageFlagBits`).
pub const STAGE_DRAW_INDIRECT: u32 = 0x2;
pub const STAGE_VERTEX_INPUT: u32 = 0x4;
pub const STAGE_VERTEX_SHADER: u32 = 0x8;
pub const STAGE_TESSELLATION_CONTROL_SHADER: u32 = 0x10;
pub const STAGE_TESSELLATION_EVALUATION_SHADER: u32 = 0x20;
pub const STAGE_GEOMETRY_SHADER: u32 = 0x40;
pub const STAGE_FRAGMENT_SHADER: u32 = 0x80;
pub const STAGE_EARLY_FRAGMENT_TESTS: u32 = 0x100;
pub const STAGE_LATE_FRAGMENT_TESTS: u32 = 0x200;
pub const STAGE_COLOR_ATTACHMENT_OUTPUT: u32 = 0x400;
pub const STAGE_COMPUTE_SHADER: u32 = 0x800;
pub const STAGE_TRANSFER: u32 = 0x1000;
pub const STAGE_HOST: u32 = 0x4000;
pub const STAGE_ALL_COMMANDS: u32 = 0x10000;
pub const STAGE_COMMAND_PREPROCESS: u32 = 0x20000;
pub const STAGE_RAY_TRACING_SHADER: u32 = 0x200000;
pub const STAGE_ACCELERATION_STRUCTURE_BUILD: u32 = 0x2000000;

/// Memory access flag bits (`VkAccessFlagBits`).
pub const ACCESS_INDIRECT_COMMAND_READ: u32 = 0x1;
pub const ACCESS_INDEX_READ: u32 = 0x2;
pub const ACCESS_VERTEX_ATTRIBUTE_READ: u32 = 0x4;
pub const ACCESS_UNIFORM_READ: u32 = 0x8;
pub const ACCESS_INPUT_ATTACHMENT_READ: u32 = 0x10;
pub const ACCESS_SHADER_READ: u32 = 0x20;
pub const ACCESS_SHADER_WRITE: u32 = 0x40;
pub const ACCESS_COLOR_ATTACHMENT_READ: u32 = 0x80;
pub const ACCESS_COLOR_ATTACHMENT_WRITE: u32 = 0x100;
pub const ACCESS_DEPTH_STENCIL_ATTACHMENT_READ: u32 = 0x200;
pub const ACCESS_DEPTH_STENCIL_ATTACHMENT_WRITE: u32 = 0x400;
pub const ACCESS_TRANSFER_READ: u32 = 0x800;
pub const ACCESS_TRANSFER_WRITE: u32 = 0x1000;
pub const ACCESS_HOST_READ: u32 = 0x2000;
pub const ACCESS_HOST_WRITE: u32 = 0x4000;
pub const ACCESS_MEMORY_READ: u32 = 0x8000;
pub const ACCESS_MEMORY_WRITE: u32 = 0x10000;
pub const ACCESS_COMMAND_PREPROCESS_READ: u32 = 0x20000;
pub const ACCESS_COMMAND_PREPROCESS_WRITE: u32 = 0x40000;
pub const ACCESS_ACCELERATION_STRUCTURE_READ: u32 = 0x200000;
pub const ACCESS_ACCELERATION_STRUCTURE_WRITE: u32 = 0x400000;

/// Every access flag bit that stands for a write.
pub const ACCESS_ANY_WRITE: u32 = ACCESS_SHADER_WRITE | ACCESS_COLOR_ATTACHMENT_WRITE
    | ACCESS_DEPTH_STENCIL_ATTACHMENT_WRITE | ACCESS_TRANSFER_WRITE | ACCESS_HOST_WRITE
    | ACCESS_MEMORY_WRITE | ACCESS_COMMAND_PREPROCESS_WRITE | ACCESS_ACCELERATION_STRUCTURE_WRITE;

/// Image layouts (`VkImageLayout`).
pub const LAYOUT_UNDEFINED: i32 = 0;
pub const LAYOUT_GENERAL: i32 = 1;
pub const LAYOUT_COLOR_ATTACHMENT_OPTIMAL: i32 = 2;
pub const LAYOUT_DEPTH_STENCIL_ATTACHMENT_OPTIMAL: i32 = 3;
pub const LAYOUT_DEPTH_STENCIL_READ_ONLY_OPTIMAL: i32 = 4;
pub const LAYOUT_SHADER_READ_ONLY_OPTIMAL: i32 = 5;
pub const LAYOUT_TRANSFER_SRC_OPTIMAL: i32 = 6;
pub const LAYOUT_TRANSFER_DST_OPTIMAL: i32 = 7;
pub const LAYOUT_PRESENT_SRC: i32 = 1000001002;
pub const LAYOUT_DEPTH_READ_ONLY_STENCIL_ATTACHMENT_OPTIMAL: i32 = 1000117000;
pub const LAYOUT_DEPTH_ATTACHMENT_STENCIL_READ_ONLY_OPTIMAL: i32 = 1000117001;

/// How a pass uses a resource.
#[derive(Clone, Copy, Debug, PartialEq, Eq, Hash, Structural)]
pub enum AccessType {
    Nothing,
    CommandBufferReadNVX,
    IndirectBuffer,
    IndexBuffer,
    VertexBuffer,
    VertexShaderReadUniformBuffer,
    VertexShaderReadSampledImageOrUniformTexelBuffer,
    VertexShaderReadOther,
    TessellationControlShaderReadUniformBuffer,
    TessellationControlShaderReadSampledImageOrUniformTexelBuffer,
    TessellationControlShaderReadOther,
    TessellationEvaluationShaderReadUniformBuffer,
    TessellationEvaluationShaderReadSampledImageOrUniformTexelBuffer,
    TessellationEvaluationShaderReadOther,
    GeometryShaderReadUniformBuffer,
    GeometryShaderReadSampledImageOrUniformTexelBuffer,
    GeometryShaderReadOther,
    FragmentShaderReadUniformBuffer,
    FragmentShaderReadSampledImageOrUniformTexelBuffer,
    FragmentShaderReadColorInputAttachment,
    FragmentShaderReadDepthStencilInputAttachment,
    FragmentShaderReadOther,
    ColorAttachmentRead,
    DepthStencilAttachmentRead,
    ComputeShaderReadUniformBuffer,
    ComputeShaderReadSampledImageOrUniformTexelBuffer,
    ComputeShaderReadOther,
    AnyShaderReadUniformBuffer,
    AnyShaderReadUniformBufferOrVertexBuffer,
    AnyShaderReadSampledImageOrUniformTexelBuffer,
    AnyShaderReadOther,
    TransferRead,
    HostRead,
    Present,
    CommandBufferWriteNVX,
    VertexShaderWrite,
    TessellationControlShaderWrite,
    TessellationEvaluationShaderWrite,
    GeometryShaderWrite,
    FragmentShaderWrite,
    ColorAttachmentWrite,
    DepthStencilAttachmentWrite,
    DepthAttachmentWriteStencilReadOnly,
    StencilAttachmentWriteDepthReadOnly,
    ComputeShaderWrite,
    AnyShaderWrite,
    TransferWrite,
    HostWrite,
    ColorAttachmentReadWrite,
    General,
    RayTracingShaderReadSampledImageOrUniformTexelBuffer,
    RayTracingShaderReadColorInputAttachment,
    RayTracingShaderReadDepthStencilInputAttachment,
    RayTracingShaderReadAccelerationStructure,
    RayTracingShaderReadOther,
    AccelerationStructureBuildWrite,
    AccelerationStructureBuildRead,
    AccelerationStructureBufferWrite,
}

impl AccessType {
    /// The access only reads.
    pub open spec fn is_read_access(self) -> bool {
        match self {
            AccessType::Nothing
            | AccessType::CommandBufferReadNVX
            | AccessType::IndirectBuffer
            | AccessType::IndexBuffer
            | AccessType::VertexBuffer
            | AccessType::VertexShaderReadUniformBuffer
            | AccessType::VertexShaderReadSampledImageOrUniformTexelBuffer
            | AccessType::VertexShaderReadOther
            | AccessType::TessellationControlShaderReadUniformBuffer
            | AccessType::TessellationControlShaderReadSampledImageOrUniformTexelBuffer
            | AccessType::TessellationControlShaderReadOther
            | AccessType::TessellationEvaluationShaderReadUniformBuffer
            | AccessType::TessellationEvaluationShaderReadSampledImageOrUniformTexelBuffer
            | AccessType::TessellationEvaluationShaderReadOther
            | AccessType::GeometryShaderReadUniformBuffer
            | AccessType::GeometryShaderReadSampledImageOrUniformTexelBuffer
            | AccessType::GeometryShaderReadOther
            | AccessType::FragmentShaderReadUniformBuffer
            | AccessType::FragmentShaderReadSampledImageOrUniformTexelBuffer
            | AccessType::FragmentShaderReadColorInputAttachment
            | AccessType::FragmentShaderReadDepthStencilInputAttachment
            | AccessType::FragmentShaderReadOther
            | AccessType::ColorAttachmentRead
            | AccessType::DepthStencilAttachmentRead
            | AccessType::ComputeShaderReadUniformBuffer
            | AccessType::ComputeShaderReadSampledImageOrUniformTexelBuffer
            | AccessType::ComputeShaderReadOther
            | AccessType::AnyShaderReadUniformBuffer
            | AccessType::AnyShaderReadUniformBufferOrVertexBuffer
            | AccessType::AnyShaderReadSampledImageOrUniformTexelBuffer
            | AccessType::AnyShaderReadOther
            | AccessType::TransferRead
            | AccessType::HostRead
            | AccessType::Present
            | AccessType::RayTracingShaderReadSampledImageOrUniformTexelBuffer
            | AccessType::RayTracingShaderReadColorInputAttachment
            | AccessType::RayTracingShaderReadDepthStencilInputAttachment
            | AccessType::RayTracingShaderReadAccelerationStructure
            | AccessType::RayTracingShaderReadOther => true,
            _ => false,
        }
    }

    /// The pipeline stages at which the access happens.
    pub open spec fn stage_bits(self) -> u32 {
        match self {
            AccessType::Nothing
            | AccessType::Present
            => 0,
            AccessType::CommandBufferReadNVX
            | AccessType::CommandBufferWriteNVX
            => STAGE_COMMAND_PREPROCESS,
            AccessType::IndirectBuffer => STAGE_DRAW_INDIRECT,
            AccessType::IndexBuffer
            | AccessType::VertexBuffer
            => STAGE_VERTEX_INPUT,
            AccessType::VertexShaderReadUniformBuffer
            | AccessType::VertexShaderReadSampledImageOrUniformTexelBuffer
            | AccessType::VertexShaderReadOther
            | AccessType::VertexShaderWrite
            => STAGE_VERTEX_SHADER,
            AccessType::TessellationControlShaderReadUniformBuffer
            | AccessType::TessellationControlShaderReadSampledImageOrUniformTexelBuffer
            | AccessType::TessellationControlShaderReadOther
            | AccessType::TessellationControlShaderWrite
            => STAGE_TESSELLATION_CONTROL_SHADER,
            AccessType::TessellationEvaluationShaderReadUniformBuffer
            | AccessType::TessellationEvaluationShaderReadSampledImageOrUniformTexelBuffer
            | AccessType::TessellationEvaluationShaderReadOther
            | AccessType::TessellationEvaluationShaderWrite
            => STAGE_TESSELLATION_EVALUATION_SHADER,
            AccessType::GeometryShaderReadUniformBuffer
            | AccessType::GeometryShaderReadSampledImageOrUniformTexelBuffer
            | AccessType::GeometryShaderReadOther
            | AccessType::GeometryShaderWrite
            => STAGE_GEOMETRY_SHADER,
            AccessType::FragmentShaderReadUniformBuffer
            | AccessType::FragmentShaderReadSampledImageOrUniformTexelBuffer
            | AccessType::FragmentShaderReadColorInputAttachment
            | AccessType::FragmentShaderReadDepthStencilInputAttachment
            | AccessType::FragmentShaderReadOther
            | AccessType::FragmentShaderWrite
            => STAGE_FRAGMENT_SHADER,
            AccessType::ColorAttachmentRead
            | AccessType::ColorAttachmentWrite
            | AccessType::ColorAttachmentReadWrite
            => STAGE_COLOR_ATTACHMENT_OUTPUT,
            AccessType::DepthStencilAttachmentRead
            | AccessType::DepthStencilAttachmentWrite
            | AccessType::DepthAttachmentWriteStencilReadOnly
            | AccessType::StencilAttachmentWriteDepthReadOnly
            => STAGE_EARLY_FRAGMENT_TESTS | STAGE_LATE_FRAGMENT_TESTS,
            AccessType::ComputeShaderReadUniformBuffer
            | AccessType::ComputeShaderReadSampledImageOrUniformTexelBuffer
            | AccessType::ComputeShaderReadOther
            | AccessType::ComputeShaderWrite
            => STAGE_COMPUTE_SHADER,
            AccessType::AnyShaderReadUniformBuffer
            | AccessType::AnyShaderReadUniformBufferOrVertexBuffer
            | AccessType::AnyShaderReadSampledImageOrUniformTexelBuffer
            | AccessType::AnyShaderReadOther
            | AccessType::AnyShaderWrite
            | AccessType::General
            => STAGE_ALL_COMMANDS,
            AccessType::TransferRead
            | AccessType::TransferWrite
            => STAGE_TRANSFER,
            AccessType::HostRead
            | AccessType::HostWrite
            => STAGE_HOST,
            AccessType::RayTracingShaderReadSampledImageOrUniformTexelBuffer
            | AccessType::RayTracingShaderReadColorInputAttachment
            | AccessType::RayTracingShaderReadDepthStencilInputAttachment
            | AccessType::RayTracingShaderReadAccelerationStructure
            | AccessType::RayTracingShaderReadOther
            => STAGE_RAY_TRACING_SHADER,
            AccessType::AccelerationStructureBuildWrite
            | AccessType::AccelerationStructureBuildRead
            | AccessType::AccelerationStructureBufferWrite
            => STAGE_ACCELERATION_STRUCTURE_BUILD,
        }
    }

    /// The kinds of memory access it makes.
    pub open spec fn access_bits(self) -> u32 {
        match self {
            AccessType::Nothing
            | AccessType::Present
            => 0,
            AccessType::CommandBufferReadNVX => ACCESS_COMMAND_PREPROCESS_READ,
            AccessType::IndirectBuffer => ACCESS_INDIRECT_COMMAND_READ,
            AccessType::IndexBuffer => ACCESS_INDEX_READ,
            AccessType::VertexBuffer => ACCESS_VERTEX_ATTRIBUTE_READ,
            AccessType::VertexShaderReadUniformBuffer
            | AccessType::VertexShaderReadSampledImageOrUniformTexelBuffer
            | AccessType::VertexShaderReadOther
            | AccessType::TessellationControlShaderReadSampledImageOrUniformTexelBuffer
            | AccessType::TessellationControlShaderReadOther
            | AccessType::TessellationEvaluationShaderReadSampledImageOrUniformTexelBuffer
            | AccessType::TessellationEvaluationShaderReadOther
            | AccessType::GeometryShaderReadSampledImageOrUniformTexelBuffer
            | AccessType::GeometryShaderReadOther
            | AccessType::FragmentShaderReadSampledImageOrUniformTexelBuffer
            | AccessType::FragmentShaderReadOther
            | AccessType::ComputeShaderReadSampledImageOrUniformTexelBuffer
            | AccessType::ComputeShaderReadOther
            | AccessType::AnyShaderReadSampledImageOrUniformTexelBuffer
            | AccessType::AnyShaderReadOther
            | AccessType::RayTracingShaderReadSampledImageOrUniformTexelBuffer
            | AccessType::RayTracingShaderReadOther
            => ACCESS_SHADER_READ,
            AccessType::TessellationControlShaderReadUniformBuffer
            | AccessType::TessellationEvaluationShaderReadUniformBuffer
            | AccessType::GeometryShaderReadUniformBuffer
            | AccessType::FragmentShaderReadUniformBuffer
            | AccessType::ComputeShaderReadUniformBuffer
            | AccessType::AnyShaderReadUniformBuffer
            => ACCESS_UNIFORM_READ,
            AccessType::FragmentShaderReadColorInputAttachment
            | AccessType::FragmentShaderReadDepthStencilInputAttachment
            | AccessType::RayTracingShaderReadColorInputAttachment
            | AccessType::RayTracingShaderReadDepthStencilInputAttachment
            => ACCESS_INPUT_ATTACHMENT_READ,
            AccessType::ColorAttachmentRead => ACCESS_COLOR_ATTACHMENT_READ,
            AccessType::DepthStencilAttachmentRead => ACCESS_DEPTH_STENCIL_ATTACHMENT_READ,
            AccessType::AnyShaderReadUniformBufferOrVertexBuffer => ACCESS_UNIFORM_READ | ACCESS_VERTEX_ATTRIBUTE_READ,
            AccessType::TransferRead => ACCESS_TRANSFER_READ,
            AccessType::HostRead => ACCESS_HOST_READ,
            AccessType::CommandBufferWriteNVX => ACCESS_COMMAND_PREPROCESS_WRITE,
            AccessType::VertexShaderWrite
            | AccessType::TessellationControlShaderWrite
            | AccessType::TessellationEvaluationShaderWrite
            | AccessType::GeometryShaderWrite
            | AccessType::FragmentShaderWrite
            | AccessType::ComputeShaderWrite
            | AccessType::AnyShaderWrite
            => ACCESS_SHADER_WRITE,
            AccessType::ColorAttachmentWrite => ACCESS_COLOR_ATTACHMENT_WRITE,
            AccessType::DepthStencilAttachmentWrite => ACCESS_DEPTH_STENCIL_ATTACHMENT_WRITE,
            AccessType::DepthAttachmentWriteStencilReadOnly
            | AccessType::StencilAttachmentWriteDepthReadOnly
            => ACCESS_DEPTH_STENCIL_ATTACHMENT_WRITE | ACCESS_DEPTH_STENCIL_ATTACHMENT_READ,
            AccessType::TransferWrite
            | AccessType::AccelerationStructureBufferWrite
            => ACCESS_TRANSFER_WRITE,
            AccessType::HostWrite => ACCESS_HOST_WRITE,
            AccessType::ColorAttachmentReadWrite => ACCESS_COLOR_ATTACHMENT_READ | ACCESS_COLOR_ATTACHMENT_WRITE,
            AccessType::General => ACCESS_MEMORY_READ | ACCESS_MEMORY_WRITE,
            AccessType::RayTracingShaderReadAccelerationStructure
            | AccessType::AccelerationStructureBuildRead
            => ACCESS_ACCELERATION_STRUCTURE_READ,
            AccessType::AccelerationStructureBuildWrite => ACCESS_ACCELERATION_STRUCTURE_WRITE,
        }
    }

    /// The image layout it needs (`UNDEFINED` where it needs none).
    pub open spec fn layout(self) -> i32 {
        match self {
            AccessType::Nothing
            | AccessType::CommandBufferReadNVX
            | AccessType::IndirectBuffer
            | AccessType::IndexBuffer
            | AccessType::VertexBuffer
            | AccessType::VertexShaderReadUniformBuffer
            | AccessType::TessellationControlShaderReadUniformBuffer
            | AccessType::TessellationEvaluationShaderReadUniformBuffer
            | AccessType::GeometryShaderReadUniformBuffer
            | AccessType::FragmentShaderReadUniformBuffer
            | AccessType::ComputeShaderReadUniformBuffer
            | AccessType::AnyShaderReadUniformBuffer
            | AccessType::AnyShaderReadUniformBufferOrVertexBuffer
            | AccessType::CommandBufferWriteNVX
            | AccessType::RayTracingShaderReadAccelerationStructure
            | AccessType::AccelerationStructureBuildWrite
            | AccessType::AccelerationStructureBuildRead
            | AccessType::AccelerationStructureBufferWrite
            => LAYOUT_UNDEFINED,
            AccessType::VertexShaderReadSampledImageOrUniformTexelBuffer
            | AccessType::TessellationControlShaderReadSampledImageOrUniformTexelBuffer
            | AccessType::TessellationEvaluationShaderReadSampledImageOrUniformTexelBuffer
            | AccessType::GeometryShaderReadSampledImageOrUniformTexelBuffer
            | AccessType::FragmentShaderReadSampledImageOrUniformTexelBuffer
            | AccessType::FragmentShaderReadColorInputAttachment
            | AccessType::ComputeShaderReadSampledImageOrUniformTexelBuffer
            | AccessType::AnyShaderReadSampledImageOrUniformTexelBuffer
            | AccessType::RayTracingShaderReadSampledImageOrUniformTexelBuffer
            | AccessType::RayTracingShaderReadColorInputAttachment
            => LAYOUT_SHADER_READ_ONLY_OPTIMAL,
            AccessType::VertexShaderReadOther
            | AccessType::TessellationControlShaderReadOther
            | AccessType::TessellationEvaluationShaderReadOther
            | AccessType::GeometryShaderReadOther
            | AccessType::FragmentShaderReadOther
            | AccessType::ComputeShaderReadOther
            | AccessType::AnyShaderReadOther
            | AccessType::HostRead
            | AccessType::VertexShaderWrite
            | AccessType::TessellationControlShaderWrite
            | AccessType::TessellationEvaluationShaderWrite
            | AccessType::GeometryShaderWrite
            | AccessType::FragmentShaderWrite
            | AccessType::ComputeShaderWrite
            | AccessType::AnyShaderWrite
            | AccessType::HostWrite
            | AccessType::General
            | AccessType::RayTracingShaderReadOther
            => LAYOUT_GENERAL,
            AccessType::FragmentShaderReadDepthStencilInputAttachment
            | AccessType::DepthStencilAttachmentRead
            | AccessType::RayTracingShaderReadDepthStencilInputAttachment
            => LAYOUT_DEPTH_STENCIL_READ_ONLY_OPTIMAL,
            AccessType::ColorAttachmentRead
            | AccessType::ColorAttachmentWrite
            | AccessType::ColorAttachmentReadWrite
            => LAYOUT_COLOR_ATTACHMENT_OPTIMAL,
            AccessType::TransferRead => LAYOUT_TRANSFER_SRC_OPTIMAL,
            AccessType::Present => LAYOUT_PRESENT_SRC,
            AccessType::DepthStencilAttachmentWrite => LAYOUT_DEPTH_STENCIL_ATTACHMENT_OPTIMAL,
            AccessType::DepthAttachmentWriteStencilReadOnly => LAYOUT_DEPTH_ATTACHMENT_STENCIL_READ_ONLY_OPTIMAL,
            AccessType::StencilAttachmentWriteDepthReadOnly => LAYOUT_DEPTH_READ_ONLY_STENCIL_ATTACHMENT_OPTIMAL,
            AccessType::TransferWrite => LAYOUT_TRANSFER_DST_OPTIMAL,
        }
    }

    /// Stage mask, access mask and layout together.
    pub open spec fn access_info(self) -> AccessInfo {
        AccessInfo { stage_mask: self.stage_bits(), access_mask: self.access_bits(), image_layout: self.layout() }
    }
}

/// Every access in `accesses` only reads.
pub open spec fn all_reads(accesses: Seq<AccessType>) -> bool {
    forall|i: int| 0 <= i < accesses.len() ==> #[trigger] accesses[i].is_read_access()
}

/// Going from `prev` to `next` is a hazard: both use the resource and they
/// are not one and the same list of reads.
pub open spec fn hazard(prev: Seq<AccessType>, next: Seq<AccessType>) -> bool {
    &&& prev.len() > 0
    &&& next.len() > 0
    &&& !(prev == next && all_reads(prev) && all_reads(next))
}

fn is_read(access: &AccessType) -> (r: bool)
    ensures
        r == access.is_read_access(),
{
    match access {
        AccessType::Nothing
            | AccessType::CommandBufferReadNVX
            | AccessType::IndirectBuffer
            | AccessType::IndexBuffer
            | AccessType::VertexBuffer
            | AccessType::VertexShaderReadUniformBuffer
            | AccessType::VertexShaderReadSampledImageOrUniformTexelBuffer
            | AccessType::VertexShaderReadOther
            | AccessType::TessellationControlShaderReadUniformBuffer
            | AccessType::TessellationControlShaderReadSampledImageOrUniformTexelBuffer
            | AccessType::TessellationControlShaderReadOther
            | AccessType::TessellationEvaluationShaderReadUniformBuffer
            | AccessType::TessellationEvaluationShaderReadSampledImageOrUniformTexelBuffer
            | AccessType::TessellationEvaluationShaderReadOther
            | AccessType::GeometryShaderReadUniformBuffer
            | AccessType::GeometryShaderReadSampledImageOrUniformTexelBuffer
            | AccessType::GeometryShaderReadOther
            | AccessType::FragmentShaderReadUniformBuffer
            | AccessType::FragmentShaderReadSampledImageOrUniformTexelBuffer
            | AccessType::FragmentShaderReadColorInputAttachment
            | AccessType::FragmentShaderReadDepthStencilInputAttachment
            | AccessType::FragmentShaderReadOther
            | AccessType::ColorAttachmentRead
            | AccessType::DepthStencilAttachmentRead
            | AccessType::ComputeShaderReadUniformBuffer
            | AccessType::ComputeShaderReadSampledImageOrUniformTexelBuffer
            | AccessType::ComputeShaderReadOther
            | AccessType::AnyShaderReadUniformBuffer
            | AccessType::AnyShaderReadUniformBufferOrVertexBuffer
            | AccessType::AnyShaderReadSampledImageOrUniformTexelBuffer
            | AccessType::AnyShaderReadOther
            | AccessType::TransferRead
            | AccessType::HostRead
            | AccessType::Present
            | AccessType::RayTracingShaderReadSampledImageOrUniformTexelBuffer
            | AccessType::RayTracingShaderReadColorInputAttachment
            | AccessType::RayTracingShaderReadDepthStencilInputAttachment
            | AccessType::RayTracingShaderReadAccelerationStructure
            | AccessType::RayTracingShaderReadOther => true,
        _ => false,
    }
}

fn only_reads(accesses: &[AccessType]) -> (r: bool)
    ensures
        r == all_reads(accesses@),
{
    let mut acc = true;
    let mut i: usize = 0;
    while i < accesses.len()
        invariant
            i <= accesses@.len(),
            acc == all_reads(accesses@.take(i as int)),
        decreases accesses@.len() - i,
    {
        let read = is_read(&accesses[i]);
        acc = acc && read;
        proof {
            let before = accesses@.take(i as int);
            let after = accesses@.take(i + 1);
            assert(after == before.push(accesses@[i as int]));
            if acc {
                assert forall|k: int| 0 <= k < after.len() implies #[trigger] after[k].is_read_access() by {
                    if k < i {
                        assert(after[k] == before[k]);
                    }
                }
            } else if all_reads(before) {
                assert(!after[i as int].is_read_access());
            } else {
                let k = choose|k: int| 0 <= k < before.len() && !before[k].is_read_access();
                assert(after[k] == before[k]);
            }
        }
        i = i + 1;
    }
    assert(accesses@.take(accesses@.len() as int) == accesses@);
    acc
}

fn same_accesses(a: &[AccessType], b: &[AccessType]) -> (r: bool)
    ensures
        r == (a@ == b@),
{
    if a.len() != b.len() {
        return false;
    }
    let mut i: usize = 0;
    while i < a.len()
        invariant
            i <= a@.len(),
            a@.len() == b@.len(),
            forall|k: int| 0 <= k < i ==> a@[k] == b@[k],
        decreases a@.len() - i,
    {
        if a[i] != b[i] {
            return false;
        }
        i = i + 1;
    }
    assert(a@ =~= b@);
    true
}

/// Whether going from `prev_accesses` to `next_accesses` needs a barrier:
/// write-after-read, read-after-write and write-after-write are hazards.
pub fn is_hazard(prev_accesses: &[AccessType], next_accesses: &[AccessType]) -> (r: bool)
    ensures
        r == hazard(prev_accesses@, next_accesses@),
{
    if prev_accesses.len() == 0 || next_accesses.len() == 0 {
        return false;
    }
    let prev_read_only = only_reads(prev_accesses);
    let next_read_only = only_reads(next_accesses);
    if same_accesses(prev_accesses, next_accesses) && prev_read_only && next_read_only {
        return false;
    }
    true
}

/// A write on either side of two non-empty access lists is always a hazard.
pub proof fn law_write_is_hazard(prev: Seq<AccessType>, next: Seq<AccessType>)
    requires
        prev.len() > 0,
        next.len() > 0,
        !all_reads(prev) || !all_reads(next),
    ensures
        hazard(prev, next),
{
}

/// Repeating the same reads needs no barrier.
pub proof fn law_repeated_reads_need_no_barrier(accesses: Seq<AccessType>)
    requires
        all_reads(accesses),
    ensures
        !hazard(accesses, accesses),
{
}

/// The hazard test does not depend on the direction.
pub proof fn law_hazard_is_symmetric(a: Seq<AccessType>, b: Seq<AccessType>)
    ensures
        hazard(a, b) == hazard(b, a),
{
}

/// Pipeline stages, memory access and image layout of one kind of access.
#[derive(Clone, Copy, Debug, PartialEq, Eq, Structural)]
pub struct AccessInfo {
    pub stage_mask: u32,
    pub access_mask: u32,
    pub image_layout: i32,
}

/// The stages, access mask and layout that `access_type` needs.
pub fn get_access_info(access_type: AccessType) -> (info: AccessInfo)
    ensures
        info == access_type.access_info(),
{
    match access_type {
        AccessType::Nothing => AccessInfo {
            stage_mask: 0,
            access_mask: 0,
            image_layout: LAYOUT_UNDEFINED,
        },
        AccessType::CommandBufferReadNVX => AccessInfo {
            stage_mask: STAGE_COMMAND_PREPROCESS,
            access_mask: ACCESS_COMMAND_PREPROCESS_READ,
            image_layout: LAYOUT_UNDEFINED,
        },
        AccessType::IndirectBuffer => AccessInfo {
            stage_mask: STAGE_DRAW_INDIRECT,
            access_mask: ACCESS_INDIRECT_COMMAND_READ,
            image_layout: LAYOUT_UNDEFINED,
        },
        AccessType::IndexBuffer => AccessInfo {
            stage_mask: STAGE_VERTEX_INPUT,
            access_mask: ACCESS_INDEX_READ,
            image_layout: LAYOUT_UNDEFINED,
        },
        AccessType::VertexBuffer => AccessInfo {
            stage_mask: STAGE_VERTEX_INPUT,
            access_mask: ACCESS_VERTEX_ATTRIBUTE_READ,
            image_layout: LAYOUT_UNDEFINED,
        },
        AccessType::VertexShaderReadUniformBuffer => AccessInfo {
            stage_mask: STAGE_VERTEX_SHADER,
            access_mask: ACCESS_SHADER_READ,
            image_layout: LAYOUT_UNDEFINED,
        },
        AccessType::VertexShaderReadSampledImageOrUniformTexelBuffer => AccessInfo {
            stage_mask: STAGE_VERTEX_SHADER,
            access_mask: ACCESS_SHADER_READ,
            image_layout: LAYOUT_SHADER_READ_ONLY_OPTIMAL,
        },
        AccessType::VertexShaderReadOther => AccessInfo {
            stage_mask: STAGE_VERTEX_SHADER,
            access_mask: ACCESS_SHADER_READ,
            image_layout: LAYOUT_GENERAL,
        },
        AccessType::TessellationControlShaderReadUniformBuffer => AccessInfo {
            stage_mask: STAGE_TESSELLATION_CONTROL_SHADER,
            access_mask: ACCESS_UNIFORM_READ,
            image_layout: LAYOUT_UNDEFINED,
        },
        AccessType::TessellationControlShaderReadSampledImageOrUniformTexelBuffer => AccessInfo {
            stage_mask: STAGE_TESSELLATION_CONTROL_SHADER,
            access_mask: ACCESS_SHADER_READ,
            image_layout: LAYOUT_SHADER_READ_ONLY_OPTIMAL,
        },
        AccessType::TessellationControlShaderReadOther => AccessInfo {
            stage_mask: STAGE_TESSELLATION_CONTROL_SHADER,
            access_mask: ACCESS_SHADER_READ,
            image_layout: LAYOUT_GENERAL,
        },
        AccessType::TessellationEvaluationShaderReadUniformBuffer => AccessInfo {
            stage_mask: STAGE_TESSELLATION_EVALUATION_SHADER,
            access_mask: ACCESS_UNIFORM_READ,
            image_layout: LAYOUT_UNDEFINED,
        },
        AccessType::TessellationEvaluationShaderReadSampledImageOrUniformTexelBuffer => AccessInfo {
            stage_mask: STAGE_TESSELLATION_EVALUATION_SHADER,
            access_mask: ACCESS_SHADER_READ,
            image_layout: LAYOUT_SHADER_READ_ONLY_OPTIMAL,
        },
        AccessType::TessellationEvaluationShaderReadOther => AccessInfo {
            stage_mask: STAGE_TESSELLATION_EVALUATION_SHADER,
            access_mask: ACCESS_SHADER_READ,
            image_layout: LAYOUT_GENERAL,
        },
        AccessType::GeometryShaderReadUniformBuffer => AccessInfo {
            stage_mask: STAGE_GEOMETRY_SHADER,
            access_mask: ACCESS_UNIFORM_READ,
            image_layout: LAYOUT_UNDEFINED,
        },
        AccessType::GeometryShaderReadSampledImageOrUniformTexelBuffer => AccessInfo {
            stage_mask: STAGE_GEOMETRY_SHADER,
            access_mask: ACCESS_SHADER_READ,
            image_layout: LAYOUT_SHADER_READ_ONLY_OPTIMAL,
        },
        AccessType::GeometryShaderReadOther => AccessInfo {
            stage_mask: STAGE_GEOMETRY_SHADER,
            access_mask: ACCESS_SHADER_READ,
            image_layout: LAYOUT_GENERAL,
        },
        AccessType::FragmentShaderReadUniformBuffer => AccessInfo {
            stage_mask: STAGE_FRAGMENT_SHADER,
            access_mask: ACCESS_UNIFORM_READ,
            image_layout: LAYOUT_UNDEFINED,
        },
        AccessType::FragmentShaderReadSampledImageOrUniformTexelBuffer => AccessInfo {
            stage_mask: STAGE_FRAGMENT_SHADER,
            access_mask: ACCESS_SHADER_READ,
            image_layout: LAYOUT_SHADER_READ_ONLY_OPTIMAL,
        },
        AccessType::FragmentShaderReadColorInputAttachment => AccessInfo {
            stage_mask: STAGE_FRAGMENT_SHADER,
            access_mask: ACCESS_INPUT_ATTACHMENT_READ,
            image_layout: LAYOUT_SHADER_READ_ONLY_OPTIMAL,
        },
        AccessType::FragmentShaderReadDepthStencilInputAttachment => AccessInfo {
            stage_mask: STAGE_FRAGMENT_SHADER,
            access_mask: ACCESS_INPUT_ATTACHMENT_READ,
            image_layout: LAYOUT_DEPTH_STENCIL_READ_ONLY_OPTIMAL,
        },
        AccessType::FragmentShaderReadOther => AccessInfo {
            stage_mask: STAGE_FRAGMENT_SHADER,
            access_mask: ACCESS_SHADER_READ,
            image_layout: LAYOUT_GENERAL,
        },
        AccessType::ColorAttachmentRead => AccessInfo {
            stage_mask: STAGE_COLOR_ATTACHMENT_OUTPUT,
            access_mask: ACCESS_COLOR_ATTACHMENT_READ,
            image_layout: LAYOUT_COLOR_ATTACHMENT_OPTIMAL,
        },
        AccessType::DepthStencilAttachmentRead => AccessInfo {
            stage_mask: STAGE_EARLY_FRAGMENT_TESTS | STAGE_LATE_FRAGMENT_TESTS,
            access_mask: ACCESS_DEPTH_STENCIL_ATTACHMENT_READ,
            image_layout: LAYOUT_DEPTH_STENCIL_READ_ONLY_OPTIMAL,
        },
        AccessType::ComputeShaderReadUniformBuffer => AccessInfo {
            stage_mask: STAGE_COMPUTE_SHADER,
            access_mask: ACCESS_UNIFORM_READ,
            image_layout: LAYOUT_UNDEFINED,
        },
        AccessType::ComputeShaderReadSampledImageOrUniformTexelBuffer => AccessInfo {
            stage_mask: STAGE_COMPUTE_SHADER,
            access_mask: ACCESS_SHADER_READ,
            image_layout: LAYOUT_SHADER_READ_ONLY_OPTIMAL,
        },
        AccessType::ComputeShaderReadOther => AccessInfo {
            stage_mask: STAGE_COMPUTE_SHADER,
            access_mask: ACCESS_SHADER_READ,
            image_layout: LAYOUT_GENERAL,
        },
        AccessType::AnyShaderReadUniformBuffer => AccessInfo {
            stage_mask: STAGE_ALL_COMMANDS,
            access_mask: ACCESS_UNIFORM_READ,
            image_layout: LAYOUT_UNDEFINED,
        },
        AccessType::AnyShaderReadUniformBufferOrVertexBuffer => AccessInfo {
            stage_mask: STAGE_ALL_COMMANDS,
            access_mask: ACCESS_UNIFORM_READ | ACCESS_VERTEX_ATTRIBUTE_READ,
            image_layout: LAYOUT_UNDEFINED,
        },
        AccessType::AnyShaderReadSampledImageOrUniformTexelBuffer => AccessInfo {
            stage_mask: STAGE_ALL_COMMANDS,
            access_mask: ACCESS_SHADER_READ,
            image_layout: LAYOUT_SHADER_READ_ONLY_OPTIMAL,
        },
        AccessType::AnyShaderReadOther => AccessInfo {
            stage_mask: STAGE_ALL_COMMANDS,
            access_mask: ACCESS_SHADER_READ,
            image_layout: LAYOUT_GENERAL,
        },
        AccessType::TransferRead => AccessInfo {
            stage_mask: STAGE_TRANSFER,
            access_mask: ACCESS_TRANSFER_READ,
            image_layout: LAYOUT_TRANSFER_SRC_OPTIMAL,
        },
        AccessType::HostRead => AccessInfo {
            stage_mask: STAGE_HOST,
            access_mask: ACCESS_HOST_READ,
            image_layout: LAYOUT_GENERAL,
        },
        AccessType::Present => AccessInfo {
            stage_mask: 0,
            access_mask: 0,
            image_layout: LAYOUT_PRESENT_SRC,
        },
        AccessType::CommandBufferWriteNVX => AccessInfo {
            stage_mask: STAGE_COMMAND_PREPROCESS,
            access_mask: ACCESS_COMMAND_PREPROCESS_WRITE,
            image_layout: LAYOUT_UNDEFINED,
        },
        AccessType::VertexShaderWrite => AccessInfo {
            stage_mask: STAGE_VERTEX_SHADER,
            access_mask: ACCESS_SHADER_WRITE,
            image_layout: LAYOUT_GENERAL,
        },
        AccessType::TessellationControlShaderWrite => AccessInfo {
            stage_mask: STAGE_TESSELLATION_CONTROL_SHADER,
            access_mask: ACCESS_SHADER_WRITE,
            image_layout: LAYOUT_GENERAL,
        },
        AccessType::TessellationEvaluationShaderWrite => AccessInfo {
            stage_mask: STAGE_TESSELLATION_EVALUATION_SHADER,
            access_mask: ACCESS_SHADER_WRITE,
            image_layout: LAYOUT_GENERAL,
        },
        AccessType::GeometryShaderWrite => AccessInfo {
            stage_mask: STAGE_GEOMETRY_SHADER,
            access_mask: ACCESS_SHADER_WRITE,
            image_layout: LAYOUT_GENERAL,
        },
        AccessType::FragmentShaderWrite => AccessInfo {
            stage_mask: STAGE_FRAGMENT_SHADER,
            access_mask: ACCESS_SHADER_WRITE,
            image_layout: LAYOUT_GENERAL,
        },
        AccessType::ColorAttachmentWrite => AccessInfo {
            stage_mask: STAGE_COLOR_ATTACHMENT_OUTPUT,
            access_mask: ACCESS_COLOR_ATTACHMENT_WRITE,
            image_layout: LAYOUT_COLOR_ATTACHMENT_OPTIMAL,
        },
        AccessType::DepthStencilAttachmentWrite => AccessInfo {
            stage_mask: STAGE_EARLY_FRAGMENT_TESTS | STAGE_LATE_FRAGMENT_TESTS,
            access_mask: ACCESS_DEPTH_STENCIL_ATTACHMENT_WRITE,
            image_layout: LAYOUT_DEPTH_STENCIL_ATTACHMENT_OPTIMAL,
        },
        AccessType::DepthAttachmentWriteStencilReadOnly => AccessInfo {
            stage_mask: STAGE_EARLY_FRAGMENT_TESTS | STAGE_LATE_FRAGMENT_TESTS,
            access_mask: ACCESS_DEPTH_STENCIL_ATTACHMENT_WRITE | ACCESS_DEPTH_STENCIL_ATTACHMENT_READ,
            image_layout: LAYOUT_DEPTH_ATTACHMENT_STENCIL_READ_ONLY_OPTIMAL,
        },
        AccessType::StencilAttachmentWriteDepthReadOnly => AccessInfo {
            stage_mask: STAGE_EARLY_FRAGMENT_TESTS | STAGE_LATE_FRAGMENT_TESTS,
            access_mask: ACCESS_DEPTH_STENCIL_ATTACHMENT_WRITE | ACCESS_DEPTH_STENCIL_ATTACHMENT_READ,
            image_layout: LAYOUT_DEPTH_READ_ONLY_STENCIL_ATTACHMENT_OPTIMAL,
        },
        AccessType::ComputeShaderWrite => AccessInfo {
            stage_mask: STAGE_COMPUTE_SHADER,
            access_mask: ACCESS_SHADER_WRITE,
            image_layout: LAYOUT_GENERAL,
        },
        AccessType::AnyShaderWrite => AccessInfo {
            stage_mask: STAGE_ALL_COMMANDS,
            access_mask: ACCESS_SHADER_WRITE,
            image_layout: LAYOUT_GENERAL,
        },
        AccessType::TransferWrite => AccessInfo {
            stage_mask: STAGE_TRANSFER,
            access_mask: ACCESS_TRANSFER_WRITE,
            image_layout: LAYOUT_TRANSFER_DST_OPTIMAL,
        },
        AccessType::HostWrite => AccessInfo {
            stage_mask: STAGE_HOST,
            access_mask: ACCESS_HOST_WRITE,
            image_layout: LAYOUT_GENERAL,
        },
        AccessType::ColorAttachmentReadWrite => AccessInfo {
            stage_mask: STAGE_COLOR_ATTACHMENT_OUTPUT,
            access_mask: ACCESS_COLOR_ATTACHMENT_READ | ACCESS_COLOR_ATTACHMENT_WRITE,
            image_layout: LAYOUT_COLOR_ATTACHMENT_OPTIMAL,
        },
        AccessType::General => AccessInfo {
            stage_mask: STAGE_ALL_COMMANDS,
            access_mask: ACCESS_MEMORY_READ | ACCESS_MEMORY_WRITE,
            image_layout: LAYOUT_GENERAL,
        },
        AccessType::RayTracingShaderReadSampledImageOrUniformTexelBuffer => AccessInfo {
            stage_mask: STAGE_RAY_TRACING_SHADER,
            access_mask: ACCESS_SHADER_READ,
            image_layout: LAYOUT_SHADER_READ_ONLY_OPTIMAL,
        },
        AccessType::RayTracingShaderReadColorInputAttachment => AccessInfo {
            stage_mask: STAGE_RAY_TRACING_SHADER,
            access_mask: ACCESS_INPUT_ATTACHMENT_READ,
            image_layout: LAYOUT_SHADER_READ_ONLY_OPTIMAL,
        },
        AccessType::RayTracingShaderReadDepthStencilInputAttachment => AccessInfo {
            stage_mask: STAGE_RAY_TRACING_SHADER,
            access_mask: ACCESS_INPUT_ATTACHMENT_READ,
            image_layout: LAYOUT_DEPTH_STENCIL_READ_ONLY_OPTIMAL,
        },
        AccessType::RayTracingShaderReadAccelerationStructure => AccessInfo {
            stage_mask: STAGE_RAY_TRACING_SHADER,
            access_mask: ACCESS_ACCELERATION_STRUCTURE_READ,
            image_layout: LAYOUT_UNDEFINED,
        },
        AccessType::RayTracingShaderReadOther => AccessInfo {
            stage_mask: STAGE_RAY_TRACING_SHADER,
            access_mask: ACCESS_SHADER_READ,
            image_layout: LAYOUT_GENERAL,
        },
        AccessType::AccelerationStructureBuildWrite => AccessInfo {
            stage_mask: STAGE_ACCELERATION_STRUCTURE_BUILD,
            access_mask: ACCESS_ACCELERATION_STRUCTURE_WRITE,
            image_layout: LAYOUT_UNDEFINED,
        },
        AccessType::AccelerationStructureBuildRead => AccessInfo {
            stage_mask: STAGE_ACCELERATION_STRUCTURE_BUILD,
            access_mask: ACCESS_ACCELERATION_STRUCTURE_READ,
            image_layout: LAYOUT_UNDEFINED,
        },
        AccessType::AccelerationStructureBufferWrite => AccessInfo {
            stage_mask: STAGE_ACCELERATION_STRUCTURE_BUILD,
            access_mask: ACCESS_TRANSFER_WRITE,
            image_layout: LAYOUT_UNDEFINED,
        },
    }
}

/// An access that only reads sets no write bit in its access mask.
pub proof fn law_reads_set_no_write_bits(a: AccessType)
    requires
        a.is_read_access(),
    ensures
        a.access_bits() & ACCESS_ANY_WRITE == 0,
{
    assert(ACCESS_ANY_WRITE == 0x455540u32 && 0u32 & 0x455540u32 == 0
        && ACCESS_COMMAND_PREPROCESS_READ & 0x455540u32 == 0
        && ACCESS_INDIRECT_COMMAND_READ & 0x455540u32 == 0
        && ACCESS_INDEX_READ & 0x455540u32 == 0
        && ACCESS_VERTEX_ATTRIBUTE_READ & 0x455540u32 == 0
        && ACCESS_SHADER_READ & 0x455540u32 == 0
        && ACCESS_UNIFORM_READ & 0x455540u32 == 0
        && ACCESS_INPUT_ATTACHMENT_READ & 0x455540u32 == 0
        && ACCESS_COLOR_ATTACHMENT_READ & 0x455540u32 == 0
        && ACCESS_DEPTH_STENCIL_ATTACHMENT_READ & 0x455540u32 == 0
        && (ACCESS_UNIFORM_READ | ACCESS_VERTEX_ATTRIBUTE_READ) & 0x455540u32 == 0
        && ACCESS_TRANSFER_READ & 0x455540u32 == 0
        && ACCESS_HOST_READ & 0x455540u32 == 0
        && ACCESS_ACCELERATION_STRUCTURE_READ & 0x455540u32 == 0) by (bit_vector);
    match a {
        AccessType::Nothing | AccessType::Present => {},
        _ => {},
    }
}

/// The accesses that are writes by shaders.
pub open spec fn is_shader_write(a: AccessType) -> bool {
    ||| a == AccessType::VertexShaderWrite
    ||| a == AccessType::TessellationControlShaderWrite
    ||| a == AccessType::TessellationEvaluationShaderWrite
    ||| a == AccessType::GeometryShaderWrite
    ||| a == AccessType::FragmentShaderWrite
    ||| a == AccessType::ComputeShaderWrite
    ||| a == AccessType::AnyShaderWrite
}

/// A write by a shader writes shader memory, needs the image in the
/// `GENERAL` layout, and happens at the stage of the shader that makes it.
pub proof fn law_shader_writes_need_general_layout(a: AccessType)
    requires
        is_shader_write(a),
    ensures
        a.access_info().access_mask == ACCESS_SHADER_WRITE,
        a.access_info().image_layout == LAYOUT_GENERAL,
        a == AccessType::VertexShaderWrite ==> a.access_info().stage_mask == STAGE_VERTEX_SHADER,
        a == AccessType::TessellationControlShaderWrite ==> a.access_info().stage_mask
            == STAGE_TESSELLATION_CONTROL_SHADER,
        a == AccessType::TessellationEvaluationShaderWrite ==> a.access_info().stage_mask
            == STAGE_TESSELLATION_EVALUATION_SHADER,
        a == AccessType::GeometryShaderWrite ==> a.access_info().stage_mask == STAGE_GEOMETRY_SHADER,
        a == AccessType::FragmentShaderWrite ==> a.access_info().stage_mask == STAGE_FRAGMENT_SHADER,
        a == AccessType::ComputeShaderWrite ==> a.access_info().stage_mask == STAGE_COMPUTE_SHADER,
        a == AccessType::AnyShaderWrite ==> a.access_info().stage_mask == STAGE_ALL_COMMANDS,
{
}

/// An access that writes sets a write bit of its access mask and never
/// needs a layout that is only for reading: not shader-read-only, not
/// depth/stencil-read-only, not transfer source, not present. (The
/// acceleration-structure build read is not counted among the reads by the
/// hazard test, but it writes nothing.)
pub proof fn law_writes_need_writable_layouts(a: AccessType)
    requires
        !a.is_read_access(),
        a != AccessType::AccelerationStructureBuildRead,
    ensures
        a.access_info().access_mask & ACCESS_ANY_WRITE != 0,
        a.access_info().image_layout != LAYOUT_SHADER_READ_ONLY_OPTIMAL,
        a.access_info().image_layout != LAYOUT_DEPTH_STENCIL_READ_ONLY_OPTIMAL,
        a.access_info().image_layout != LAYOUT_TRANSFER_SRC_OPTIMAL,
        a.access_info().image_layout != LAYOUT_PRESENT_SRC,
{
    assert(ACCESS_COMMAND_PREPROCESS_WRITE & ACCESS_ANY_WRITE != 0
        && ACCESS_SHADER_WRITE & ACCESS_ANY_WRITE != 0
        && ACCESS_COLOR_ATTACHMENT_WRITE & ACCESS_ANY_WRITE != 0
        && ACCESS_DEPTH_STENCIL_ATTACHMENT_WRITE & ACCESS_ANY_WRITE != 0
        && (ACCESS_DEPTH_STENCIL_ATTACHMENT_WRITE | ACCESS_DEPTH_STENCIL_ATTACHMENT_READ) & ACCESS_ANY_WRITE != 0
        && ACCESS_TRANSFER_WRITE & ACCESS_ANY_WRITE != 0
        && ACCESS_HOST_WRITE & ACCESS_ANY_WRITE != 0
        && (ACCESS_COLOR_ATTACHMENT_READ | ACCESS_COLOR_ATTACHMENT_WRITE) & ACCESS_ANY_WRITE != 0
        && (ACCESS_MEMORY_READ | ACCESS_MEMORY_WRITE) & ACCESS_ANY_WRITE != 0
        && ACCESS_ACCELERATION_STRUCTURE_WRITE & ACCESS_ANY_WRITE != 0) by (bit_vector);
    match a {
        AccessType::CommandBufferWriteNVX => {},
        AccessType::VertexShaderWrite => {},
        AccessType::TessellationControlShaderWrite => {},
        AccessType::TessellationEvaluationShaderWrite => {},
        AccessType::GeometryShaderWrite => {},
        AccessType::FragmentShaderWrite => {},
        AccessType::ComputeShaderWrite => {},
        AccessType::AnyShaderWrite => {},
        AccessType::ColorAttachmentWrite => {},
        AccessType::DepthStencilAttachmentWrite => {},
        AccessType::DepthAttachmentWriteStencilReadOnly => {},
        AccessType::StencilAttachmentWriteDepthReadOnly => {},
        AccessType::TransferWrite => {},
        AccessType::AccelerationStructureBufferWrite => {},
        AccessType::HostWrite => {},
        AccessType::ColorAttachmentReadWrite => {},
        AccessType::General => {},
        AccessType::AccelerationStructureBuildWrite => {},
        AccessType::Nothing
        | AccessType::CommandBufferReadNVX
        | AccessType::IndirectBuffer
        | AccessType::IndexBuffer
        | AccessType::VertexBuffer
        | AccessType::VertexShaderReadUniformBuffer
        | AccessType::VertexShaderReadSampledImageOrUniformTexelBuffer
        | AccessType::VertexShaderReadOther
        | AccessType::TessellationControlShaderReadUniformBuffer
        | AccessType::TessellationControlShaderReadSampledImageOrUniformTexelBuffer
        | AccessType::TessellationControlShaderReadOther
        | AccessType::TessellationEvaluationShaderReadUniformBuffer
        | AccessType::TessellationEvaluationShaderReadSampledImageOrUniformTexelBuffer
        | AccessType::TessellationEvaluationShaderReadOther
        | AccessType::GeometryShaderReadUniformBuffer
        | AccessType::GeometryShaderReadSampledImageOrUniformTexelBuffer
        | AccessType::GeometryShaderReadOther
        | AccessType::FragmentShaderReadUniformBuffer
        | AccessType::FragmentShaderReadSampledImageOrUniformTexelBuffer
        | AccessType::FragmentShaderReadColorInputAttachment
        | AccessType::FragmentShaderReadDepthStencilInputAttachment
        | AccessType::FragmentShaderReadOther
        | AccessType::ColorAttachmentRead
        | AccessType::DepthStencilAttachmentRead
        | AccessType::ComputeShaderReadUniformBuffer
        | AccessType::ComputeShaderReadSampledImageOrUniformTexelBuffer
        | AccessType::ComputeShaderReadOther
        | AccessType::AnyShaderReadUniformBuffer
        | AccessType::AnyShaderReadUniformBufferOrVertexBuffer
        | AccessType::AnyShaderReadSampledImageOrUniformTexelBuffer
        | AccessType::AnyShaderReadOther
        | AccessType::TransferRead
        | AccessType::HostRead
        | AccessType::Present
        | AccessType::RayTracingShaderReadSampledImageOrUniformTexelBuffer
        | AccessType::RayTracingShaderReadColorInputAttachment
        | AccessType::RayTracingShaderReadDepthStencilInputAttachment
        | AccessType::RayTracingShaderReadAccelerationStructure
        | AccessType::RayTracingShaderReadOther
        | AccessType::AccelerationStructureBuildRead => {},
    }
}

/// The sampled-image reads of the shader stages need the image in the
/// shader-read-only layout; uniform-buffer reads touch no image and need no
/// layout.
pub proof fn law_shader_read_layouts(a: AccessType)
    ensures
        (a == AccessType::VertexShaderReadSampledImageOrUniformTexelBuffer
            || a == AccessType::TessellationControlShaderReadSampledImageOrUniformTexelBuffer
            || a == AccessType::TessellationEvaluationShaderReadSampledImageOrUniformTexelBuffer
            || a == AccessType::GeometryShaderReadSampledImageOrUniformTexelBuffer
            || a == AccessType::FragmentShaderReadSampledImageOrUniformTexelBuffer
            || a == AccessType::ComputeShaderReadSampledImageOrUniformTexelBuffer
            || a == AccessType::AnyShaderReadSampledImageOrUniformTexelBuffer
            || a == AccessType::RayTracingShaderReadSampledImageOrUniformTexelBuffer) ==> a.access_info().image_layout
            == LAYOUT_SHADER_READ_ONLY_OPTIMAL && a.access_info().access_mask == ACCESS_SHADER_READ,
        (a == AccessType::VertexShaderReadUniformBuffer || a == AccessType::TessellationControlShaderReadUniformBuffer
            || a == AccessType::TessellationEvaluationShaderReadUniformBuffer
            || a == AccessType::GeometryShaderReadUniformBuffer || a == AccessType::FragmentShaderReadUniformBuffer
            || a == AccessType::ComputeShaderReadUniformBuffer || a == AccessType::AnyShaderReadUniformBuffer)
            ==> a.access_info().image_layout == LAYOUT_UNDEFINED,
{
}

/// Every access of a shader stage happens at that stage.
pub proof fn law_shader_accesses_at_their_stage(a: AccessType)
    ensures
        (a == AccessType::VertexShaderReadUniformBuffer
            || a == AccessType::VertexShaderReadSampledImageOrUniformTexelBuffer
            || a == AccessType::VertexShaderReadOther || a == AccessType::VertexShaderWrite) ==> a.access_info().stage_mask
            == STAGE_VERTEX_SHADER,
        (a == AccessType::TessellationControlShaderReadUniformBuffer
            || a == AccessType::TessellationControlShaderReadSampledImageOrUniformTexelBuffer
            || a == AccessType::TessellationControlShaderReadOther || a == AccessType::TessellationControlShaderWrite)
            ==> a.access_info().stage_mask == STAGE_TESSELLATION_CONTROL_SHADER,
        (a == AccessType::TessellationEvaluationShaderReadUniformBuffer
            || a == AccessType::TessellationEvaluationShaderReadSampledImageOrUniformTexelBuffer
            || a == AccessType::TessellationEvaluationShaderReadOther
            || a == AccessType::TessellationEvaluationShaderWrite) ==> a.access_info().stage_mask
            == STAGE_TESSELLATION_EVALUATION_SHADER,
        (a == AccessType::GeometryShaderReadUniformBuffer
            || a == AccessType::GeometryShaderReadSampledImageOrUniformTexelBuffer
            || a == AccessType::GeometryShaderReadOther || a == AccessType::GeometryShaderWrite)
            ==> a.access_info().stage_mask == STAGE_GEOMETRY_SHADER,
        (a == AccessType::FragmentShaderReadUniformBuffer
            || a == AccessType::FragmentShaderReadSampledImageOrUniformTexelBuffer
            || a == AccessType::FragmentShaderReadColorInputAttachment
            || a == AccessType::FragmentShaderReadDepthStencilInputAttachment
            || a == AccessType::FragmentShaderReadOther || a == AccessType::FragmentShaderWrite)
            ==> a.access_info().stage_mask == STAGE_FRAGMENT_SHADER,
        (a == AccessType::ComputeShaderReadUniformBuffer
            || a == AccessType::ComputeShaderReadSampledImageOrUniformTexelBuffer
            || a == AccessType::ComputeShaderReadOther || a == AccessType::ComputeShaderWrite)
            ==> a.access_info().stage_mask == STAGE_COMPUTE_SHADER,
        (a == AccessType::TransferRead || a == AccessType::TransferWrite) ==> a.access_info().stage_mask
            == STAGE_TRANSFER,
        (a == AccessType::HostRead || a == AccessType::HostWrite) ==> a.access_info().stage_mask == STAGE_HOST,
{
}

/// Attachment, transfer and presentation accesses: colour-attachment
/// accesses happen at colour output in the colour-attachment layout,
/// depth/stencil-attachment accesses at the fragment tests, transfers at the
/// transfer stage in the transfer source or destination layout, and
/// presenting needs the present layout and no stage or memory access.
pub proof fn law_attachment_and_transfer_accesses(a: AccessType)
    ensures
        (a == AccessType::ColorAttachmentRead || a == AccessType::ColorAttachmentWrite
            || a == AccessType::ColorAttachmentReadWrite) ==> a.access_info().stage_mask
            == STAGE_COLOR_ATTACHMENT_OUTPUT && a.access_info().image_layout == LAYOUT_COLOR_ATTACHMENT_OPTIMAL,
        a == AccessType::ColorAttachmentWrite ==> a.access_info().access_mask == ACCESS_COLOR_ATTACHMENT_WRITE,
        a == AccessType::ColorAttachmentRead ==> a.access_info().access_mask == ACCESS_COLOR_ATTACHMENT_READ,
        (a == AccessType::DepthStencilAttachmentRead || a == AccessType::DepthStencilAttachmentWrite
            || a == AccessType::DepthAttachmentWriteStencilReadOnly
            || a == AccessType::StencilAttachmentWriteDepthReadOnly) ==> a.access_info().stage_mask
            == STAGE_EARLY_FRAGMENT_TESTS | STAGE_LATE_FRAGMENT_TESTS,
        a == AccessType::DepthStencilAttachmentWrite ==> a.access_info().image_layout
            == LAYOUT_DEPTH_STENCIL_ATTACHMENT_OPTIMAL && a.access_info().access_mask
            == ACCESS_DEPTH_STENCIL_ATTACHMENT_WRITE,
        a == AccessType::DepthStencilAttachmentRead ==> a.access_info().image_layout
            == LAYOUT_DEPTH_STENCIL_READ_ONLY_OPTIMAL && a.access_info().access_mask
            == ACCESS_DEPTH_STENCIL_ATTACHMENT_READ,
        a == AccessType::TransferRead ==> a.access_info().image_layout == LAYOUT_TRANSFER_SRC_OPTIMAL
            && a.access_info().access_mask == ACCESS_TRANSFER_READ,
        a == AccessType::TransferWrite ==> a.access_info().image_layout == LAYOUT_TRANSFER_DST_OPTIMAL
            && a.access_info().access_mask == ACCESS_TRANSFER_WRITE,
        a == AccessType::Present ==> a.access_info() == (AccessInfo {
            stage_mask: 0,
            access_mask: 0,
            image_layout: LAYOUT_PRESENT_SRC,
        }),
        a == AccessType::Nothing ==> a.access_info() == (AccessInfo {
            stage_mask: 0,
            access_mask: 0,
            image_layout: LAYOUT_UNDEFINED,
        }),
{
}

} // verus!
