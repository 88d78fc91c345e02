//! Descriptor-set layouts and descriptor-set contents, and the writes that
//! fill a freshly allocated descriptor set from the contents.
//!
//! Vulkan objects appear here by their raw handle values; shader-stage flags
//! by their raw bits.
use vstd::prelude::*;
use crate::hash::{hash_words, HashWord};
use crate::bits::{bit_set, set_bits_between, for_each_bit_in_range};
use crate::temporary_map::{TemporaryMap, expired_values, advanced_entries, advanced_frames, next_frame, touch_frames};

verus! {

pub const MAX_DESCRIPTOR_SETS: usize = 4;
pub const MAX_BINDINGS_PER_SET: usize = 16;
pub const MAX_COUNTS_PER_BINDING: usize = 5;

/// `VK_IMAGE_LAYOUT_GENERAL`.
pub const IMAGE_LAYOUT_GENERAL: i32 = 1;
/// `VK_IMAGE_LAYOUT_SHADER_READ_ONLY_OPTIMAL`.
pub const IMAGE_LAYOUT_SHADER_READ_ONLY_OPTIMAL: i32 = 5;

/// The kinds of descriptor a set layout can hold.
#[derive(Clone, Copy, Debug, PartialEq, Eq, Hash, Structural)]
pub enum DescriptorType {
    CombinedImageSampler,
    StorageImage,
    UniformBuffer,
    StorageBuffer,
}

impl DescriptorType {
    /// The `VkDescriptorType` value.
    pub open spec fn raw_value(self) -> i32 {
        match self {
            DescriptorType::CombinedImageSampler => 1,
            DescriptorType::StorageImage => 3,
            DescriptorType::UniformBuffer => 6,
            DescriptorType::StorageBuffer => 7,
        }
    }

    /// The `VkDescriptorType` value.
    pub fn as_raw(self) -> (v: i32)
        ensures
            v == self.raw_value(),
    {
        match self {
            DescriptorType::CombinedImageSampler => 1,
            DescriptorType::StorageImage => 3,
            DescriptorType::UniformBuffer => 6,
            DescriptorType::StorageBuffer => 7,
        }
    }
}

/// The bindings of a descriptor-set layout, collected one by one: for each
/// kind a mask of the bindings of that kind, and per binding its shader
/// stages and its descriptor count.
#[derive(Debug)]
pub struct DescriptorSetLayoutBuilder {
    combined_image_sampler_mask: u32,
    storage_image_mask: u32,
    uniform_buffer_mask: u32,
    storage_buffer_mask: u32,
    stage_flags: Vec<u32>,
    counts: Vec<u32>,
}

/// The binding a layout describes at one id: its kind, count and stages.
pub type BindingDescription = (DescriptorType, u32, u32);

/// The binding at `id` of a layout with these masks, stages and counts:
/// none where no stage uses it, else the first kind whose mask has the id,
/// in the order combined image sampler, storage image, uniform buffer,
/// storage buffer.
pub open spec fn binding_at(masks: (u32, u32, u32, u32), stages: Seq<u32>, counts: Seq<u32>, id: u32) -> Option<
    BindingDescription,
> {
    if stages[id as int] == 0 {
        None
    } else if bit_set(masks.0, id) {
        Some((DescriptorType::CombinedImageSampler, counts[id as int], stages[id as int]))
    } else if bit_set(masks.1, id) {
        Some((DescriptorType::StorageImage, counts[id as int], stages[id as int]))
    } else if bit_set(masks.2, id) {
        Some((DescriptorType::UniformBuffer, counts[id as int], stages[id as int]))
    } else if bit_set(masks.3, id) {
        Some((DescriptorType::StorageBuffer, counts[id as int], stages[id as int]))
    } else {
        None
    }
}

/// The mask `mask` with bit `id` set as well.
pub open spec fn with_bit(mask: u32, id: u32) -> u32 {
    mask | (1u32 << id)
}

impl DescriptorSetLayoutBuilder {
    /// The masks of combined image samplers, storage images, uniform buffers
    /// and storage buffers.
    pub closed spec fn masks(&self) -> (u32, u32, u32, u32) {
        (self.combined_image_sampler_mask, self.storage_image_mask, self.uniform_buffer_mask, self.storage_buffer_mask)
    }

    /// The shader stages of each binding.
    pub closed spec fn stages(&self) -> Seq<u32> {
        self.stage_flags@
    }

    /// The descriptor count of each binding id that can carry one.
    pub closed spec fn binding_counts(&self) -> Seq<u32> {
        self.counts@
    }

    /// Stages for every binding and counts for the ids that can carry one.
    pub open spec fn wf(&self) -> bool {
        &&& self.stages().len() == MAX_BINDINGS_PER_SET
        &&& self.binding_counts().len() == MAX_COUNTS_PER_BINDING
        &&& forall|id: int| MAX_COUNTS_PER_BINDING <= id < MAX_BINDINGS_PER_SET ==> #[trigger] self.stages()[id] == 0
    }

    /// A layout with no bindings.
    pub fn new() -> (b: Self)
        ensures
            b.wf(),
            b.masks() == (0u32, 0u32, 0u32, 0u32),
            b.stages() == Seq::new(MAX_BINDINGS_PER_SET as nat, |i: int| 0u32),
            b.binding_counts() == Seq::new(MAX_COUNTS_PER_BINDING as nat, |i: int| 0u32),
    {
        let mut stage_flags: Vec<u32> = Vec::new();
        let mut counts: Vec<u32> = Vec::new();
        let mut i: usize = 0;
        while i < MAX_BINDINGS_PER_SET
            invariant
                i <= MAX_BINDINGS_PER_SET,
                stage_flags@ == Seq::new(i as nat, |k: int| 0u32),
                counts@ == Seq::new(if i < MAX_COUNTS_PER_BINDING { i as nat } else { MAX_COUNTS_PER_BINDING as nat }, |k: int| 0u32),
            decreases MAX_BINDINGS_PER_SET - i,
        {
            stage_flags.push(0);
            if i < MAX_COUNTS_PER_BINDING {
                counts.push(0);
            }
            i = i + 1;
        }
        DescriptorSetLayoutBuilder {
            combined_image_sampler_mask: 0,
            storage_image_mask: 0,
            uniform_buffer_mask: 0,
            storage_buffer_mask: 0,
            stage_flags,
            counts,
        }
    }

    /// Adds a binding of kind `kind` at `id`, used by the stages
    /// `stage_flags`, holding `count` descriptors. A binding's count is kept
    /// per id below `MAX_COUNTS_PER_BINDING` only, so the id must be below it.
    pub fn with_binding(&mut self, id: u32, kind: DescriptorType, count: u32, stage_flags: u32)
        requires
            old(self).wf(),
            id < MAX_COUNTS_PER_BINDING,
        ensures
            final(self).wf(),
            final(self).masks() == (match kind {
                DescriptorType::CombinedImageSampler => (with_bit(old(self).masks().0, id), old(self).masks().1, old(self).masks().2, old(self).masks().3),
                DescriptorType::StorageImage => (old(self).masks().0, with_bit(old(self).masks().1, id), old(self).masks().2, old(self).masks().3),
                DescriptorType::UniformBuffer => (old(self).masks().0, old(self).masks().1, with_bit(old(self).masks().2, id), old(self).masks().3),
                DescriptorType::StorageBuffer => (old(self).masks().0, old(self).masks().1, old(self).masks().2, with_bit(old(self).masks().3, id)),
            }),
            final(self).stages() == old(self).stages().update(id as int, old(self).stages()[id as int] | stage_flags),
            final(self).binding_counts() == old(self).binding_counts().update(id as int, count),
    {
        match kind {
            DescriptorType::CombinedImageSampler => {
                self.combined_image_sampler_mask = self.combined_image_sampler_mask | (1u32 << id);
            },
            DescriptorType::StorageImage => {
                self.storage_image_mask = self.storage_image_mask | (1u32 << id);
            },
            DescriptorType::UniformBuffer => {
                self.uniform_buffer_mask = self.uniform_buffer_mask | (1u32 << id);
            },
            DescriptorType::StorageBuffer => {
                self.storage_buffer_mask = self.storage_buffer_mask | (1u32 << id);
            },
        }
        let idx = id as usize;
        let stages = self.stage_flags[idx] | stage_flags;
        self.stage_flags.set(idx, stages);
        self.counts.set(idx, count);
    }

    /// The binding at `id`, if the layout has one there.
    pub fn binding(&self, id: u32) -> (b: Option<BindingDescription>)
        requires
            self.wf(),
            id < MAX_BINDINGS_PER_SET,
        ensures
            b == binding_at(self.masks(), self.stages(), self.binding_counts(), id),
    {
        assert(id >= MAX_COUNTS_PER_BINDING ==> self.stages()[id as int] == 0);
        lookup_binding(self.combined_image_sampler_mask, self.storage_image_mask, self.uniform_buffer_mask,
            self.storage_buffer_mask, &self.stage_flags, &self.counts, id)
    }

    /// The bindings below id `n` that the layout has, in ascending order,
    /// each with its id.
    pub open spec fn bindings_below(&self, n: int) -> Seq<(u32, BindingDescription)>
        decreases n,
    {
        if n <= 0 {
            Seq::empty()
        } else {
            let rest = self.bindings_below(n - 1);
            match binding_at(self.masks(), self.stages(), self.binding_counts(), (n - 1) as u32) {
                Some(b) => rest.push(((n - 1) as u32, b)),
                None => rest,
            }
        }
    }

    /// The bindings a set layout created from the builder declares, in
    /// ascending order of id.
    pub fn layout_bindings(&self) -> (bindings: Vec<(u32, BindingDescription)>)
        requires
            self.wf(),
        ensures
            bindings@ == self.bindings_below(MAX_BINDINGS_PER_SET as int),
    {
        let mut bindings: Vec<(u32, BindingDescription)> = Vec::new();
        let mut id: usize = 0;
        while id < MAX_BINDINGS_PER_SET
            invariant
                self.wf(),
                id <= MAX_BINDINGS_PER_SET,
                bindings@ == self.bindings_below(id as int),
            decreases MAX_BINDINGS_PER_SET - id,
        {
            match self.binding(id as u32) {
                Some(b) => {
                    bindings.push((id as u32, b));
                },
                None => {},
            }
            id = id + 1;
        }
        bindings
    }

    /// The total descriptor count of the bindings of kind `kind` below id `n`.
    pub open spec fn kind_total(&self, kind: DescriptorType, n: int) -> int
        decreases n,
    {
        if n <= 0 {
            0
        } else {
            let rest = self.kind_total(kind, n - 1);
            match binding_at(self.masks(), self.stages(), self.binding_counts(), (n - 1) as u32) {
                Some((k, count, _)) => if k == kind { rest + count } else { rest },
                None => rest,
            }
        }
    }

    /// Whether some binding below id `n` is of kind `kind`.
    pub open spec fn has_kind(&self, kind: DescriptorType, n: int) -> bool
        decreases n,
    {
        if n <= 0 {
            false
        } else {
            self.has_kind(kind, n - 1) || match binding_at(self.masks(), self.stages(), self.binding_counts(), (n - 1) as u32) {
                Some((k, _, _)) => k == kind,
                None => false,
            }
        }
    }

    /// One pool size per kind the layout uses: `count_per_binding` sets'
    /// worth of descriptors of that kind.
    pub open spec fn pool_sizes_spec(&self, count_per_binding: usize) -> Seq<(DescriptorType, u32)> {
        let all = MAX_BINDINGS_PER_SET as int;
        let entry = |k: DescriptorType| (k, (count_per_binding * self.kind_total(k, all)) as u32);
        let s0 = if self.has_kind(DescriptorType::CombinedImageSampler, all) { seq![entry(DescriptorType::CombinedImageSampler)] } else { Seq::empty() };
        let s1 = if self.has_kind(DescriptorType::StorageImage, all) { s0.push(entry(DescriptorType::StorageImage)) } else { s0 };
        let s2 = if self.has_kind(DescriptorType::UniformBuffer, all) { s1.push(entry(DescriptorType::UniformBuffer)) } else { s1 };
        if self.has_kind(DescriptorType::StorageBuffer, all) { s2.push(entry(DescriptorType::StorageBuffer)) } else { s2 }
    }

    /// The descriptor-pool sizes for pools of `count_per_binding` sets of
    /// this layout: for each kind of descriptor it uses, in the order combined
    /// image sampler, storage image, uniform buffer, storage buffer, that many
    /// times its total count, cut to 32 bits.
    pub fn pool_sizes(&self, count_per_binding: usize) -> (sizes: Vec<(DescriptorType, u32)>)
        requires
            self.wf(),
            forall|k: DescriptorType| #[trigger] self.kind_total(k, MAX_BINDINGS_PER_SET as int) <= usize::MAX,
            forall|k: DescriptorType| count_per_binding * #[trigger] self.kind_total(k, MAX_BINDINGS_PER_SET as int) <= usize::MAX,
        ensures
            sizes@ == self.pool_sizes_spec(count_per_binding),
    {
        let mut totals: Vec<u64> = vec![0, 0, 0, 0];
        let mut present: Vec<bool> = vec![false, false, false, false];
        let mut id: u32 = 0;
        while id < MAX_BINDINGS_PER_SET as u32
            invariant
                self.wf(),
                id <= MAX_BINDINGS_PER_SET,
                totals@.len() == 4,
                present@.len() == 4,
                forall|k: DescriptorType| #[trigger] totals@[kind_slot(k)] == self.kind_total(k, id as int),
                forall|k: DescriptorType| #[trigger] present@[kind_slot(k)] == self.has_kind(k, id as int),
                forall|k: DescriptorType| #[trigger] self.kind_total(k, id as int) <= id * 0xffff_ffff,
            decreases MAX_BINDINGS_PER_SET - id,
        {
            let found = self.binding(id);
            proof {
                assert forall|k: DescriptorType| #[trigger] self.kind_total(k, id + 1) <= (id + 1) * 0xffff_ffff by {
                    assert(self.kind_total(k, id as int) <= id * 0xffff_ffff);
                }
            }
            match found {
                Some((kind, count, _)) => {
                    let slot = kind_index(kind);
                    assert(totals@[kind_slot(kind)] == self.kind_total(kind, id as int));
                    assert(self.kind_total(kind, id as int) <= id * 0xffff_ffff);
                    let t = totals[slot] + count as u64;
                    totals.set(slot, t);
                    present.set(slot, true);
                },
                None => {},
            }
            id = id + 1;
        }
        let mut sizes: Vec<(DescriptorType, u32)> = Vec::new();
        let kinds = [DescriptorType::CombinedImageSampler, DescriptorType::StorageImage, DescriptorType::UniformBuffer,
            DescriptorType::StorageBuffer];
        let mut j: usize = 0;
        while j < 4
            invariant
                j <= 4,
                totals@.len() == 4,
                present@.len() == 4,
                kinds@ == seq![DescriptorType::CombinedImageSampler, DescriptorType::StorageImage, DescriptorType::UniformBuffer, DescriptorType::StorageBuffer],
                forall|k: DescriptorType| #[trigger] totals@[kind_slot(k)] == self.kind_total(k, MAX_BINDINGS_PER_SET as int),
                forall|k: DescriptorType| #[trigger] present@[kind_slot(k)] == self.has_kind(k, MAX_BINDINGS_PER_SET as int),
                forall|k: DescriptorType| #[trigger] self.kind_total(k, MAX_BINDINGS_PER_SET as int) <= usize::MAX,
                forall|k: DescriptorType| count_per_binding * #[trigger] self.kind_total(k, MAX_BINDINGS_PER_SET as int) <= usize::MAX,
                sizes@ == self.pool_sizes_prefix(count_per_binding, j as int),
            decreases 4 - j,
        {
            let kind = kinds[j];
            assert(kind_slot(kind) == j);
            assert(kind_of_slot(j as int) == kind);
            if present[j] {
                assert(self.kind_total(kind, MAX_BINDINGS_PER_SET as int) <= usize::MAX);
                assert(count_per_binding * self.kind_total(kind, MAX_BINDINGS_PER_SET as int) <= usize::MAX);
                let total = totals[j] as usize;
                let n = #[verifier::truncate] ((count_per_binding * total) as u32);
                sizes.push((kind, n));
            }
            j = j + 1;
        }
        proof {
            assert(self.pool_sizes_prefix(count_per_binding, 4) =~= self.pool_sizes_spec(count_per_binding)) by {
                reveal_with_fuel(DescriptorSetLayoutBuilder::pool_sizes_prefix, 5);
            }
        }
        sizes
    }

    /// The pool sizes of the first `j` kinds, in kind order.
    pub open spec fn pool_sizes_prefix(&self, count_per_binding: usize, j: int) -> Seq<(DescriptorType, u32)>
        decreases j,
    {
        if j <= 0 {
            Seq::empty()
        } else {
            let k = kind_of_slot(j - 1);
            let rest = self.pool_sizes_prefix(count_per_binding, j - 1);
            if self.has_kind(k, MAX_BINDINGS_PER_SET as int) {
                rest.push((k, (count_per_binding * self.kind_total(k, MAX_BINDINGS_PER_SET as int)) as u32))
            } else {
                rest
            }
        }
    }
}

/// The position of `kind` in the order combined image sampler, storage
/// image, uniform buffer, storage buffer.
pub open spec fn kind_slot(kind: DescriptorType) -> int {
    match kind {
        DescriptorType::CombinedImageSampler => 0,
        DescriptorType::StorageImage => 1,
        DescriptorType::UniformBuffer => 2,
        DescriptorType::StorageBuffer => 3,
    }
}

/// The kind at position `j` of that order.
pub open spec fn kind_of_slot(j: int) -> DescriptorType {
    if j == 0 {
        DescriptorType::CombinedImageSampler
    } else if j == 1 {
        DescriptorType::StorageImage
    } else if j == 2 {
        DescriptorType::UniformBuffer
    } else {
        DescriptorType::StorageBuffer
    }
}

fn kind_index(kind: DescriptorType) -> (j: usize)
    ensures
        j == kind_slot(kind),
{
    match kind {
        DescriptorType::CombinedImageSampler => 0,
        DescriptorType::StorageImage => 1,
        DescriptorType::UniformBuffer => 2,
        DescriptorType::StorageBuffer => 3,
    }
}

fn lookup_binding(cis: u32, si: u32, ub: u32, sb: u32, stages: &Vec<u32>, counts: &Vec<u32>, id: u32) -> (b: Option<
    BindingDescription,
>)
    requires
        stages@.len() == MAX_BINDINGS_PER_SET,
        counts@.len() == MAX_COUNTS_PER_BINDING,
        id < MAX_BINDINGS_PER_SET,
        stages@[id as int] != 0 ==> id < MAX_COUNTS_PER_BINDING || !(bit_set(cis, id) || bit_set(si, id)
            || bit_set(ub, id) || bit_set(sb, id)),
    ensures
        b == binding_at((cis, si, ub, sb), stages@, counts@, id),
{
    let idx = id as usize;
    if stages[idx] == 0 {
        return None;
    }
    if (cis >> id) & 1 == 1 {
        return Some((DescriptorType::CombinedImageSampler, counts[idx], stages[idx]));
    }
    if (si >> id) & 1 == 1 {
        return Some((DescriptorType::StorageImage, counts[idx], stages[idx]));
    }
    if (ub >> id) & 1 == 1 {
        return Some((DescriptorType::UniformBuffer, counts[idx], stages[idx]));
    }
    if (sb >> id) & 1 == 1 {
        return Some((DescriptorType::StorageBuffer, counts[idx], stages[idx]));
    }
    None
}

/// A created descriptor-set layout: its raw handle and the bindings it was
/// created from. Two layouts are equal when their handles are.
#[derive(Debug)]
pub struct DescriptorSetLayout {
    vk_layout: u64,
    description: DescriptorSetLayoutBuilder,
}

impl DescriptorSetLayout {
    /// The raw handle.
    pub closed spec fn handle(&self) -> u64 {
        self.vk_layout
    }

    /// The bindings it was created from.
    pub closed spec fn bindings(&self) -> DescriptorSetLayoutBuilder {
        self.description
    }

    /// The layout with raw handle `vk_layout`, created from `description`.
    pub fn new(vk_layout: u64, description: DescriptorSetLayoutBuilder) -> (l: Self)
        ensures
            l.handle() == vk_layout,
            l.bindings() == description,
    {
        DescriptorSetLayout { vk_layout, description }
    }

    /// The binding at `id`, if the layout has one there.
    pub fn binding(&self, id: u32) -> (b: Option<BindingDescription>)
        requires
            self.bindings().wf(),
            id < MAX_BINDINGS_PER_SET,
        ensures
            b == binding_at(self.bindings().masks(), self.bindings().stages(), self.bindings().binding_counts(), id),
    {
        self.description.binding(id)
    }

    /// The raw handle.
    pub fn raw(&self) -> (h: u64)
        ensures
            h == self.handle(),
    {
        self.vk_layout
    }

    pub fn combined_image_sampler_mask(&self) -> (m: u32)
        ensures
            m == self.bindings().masks().0,
    {
        self.description.combined_image_sampler_mask
    }

    pub fn storage_image_mask(&self) -> (m: u32)
        ensures
            m == self.bindings().masks().1,
    {
        self.description.storage_image_mask
    }

    pub fn uniform_buffer_mask(&self) -> (m: u32)
        ensures
            m == self.bindings().masks().2,
    {
        self.description.uniform_buffer_mask
    }

    pub fn storage_buffer_mask(&self) -> (m: u32)
        ensures
            m == self.bindings().masks().3,
    {
        self.description.storage_buffer_mask
    }

    /// The bindings of every kind.
    pub fn all_mask(&self) -> (m: u32)
        ensures
            m == self.bindings().masks().0 | self.bindings().masks().1 | self.bindings().masks().2
                | self.bindings().masks().3,
    {
        self.description.combined_image_sampler_mask | self.description.storage_image_mask
            | self.description.uniform_buffer_mask | self.description.storage_buffer_mask
    }
}

/// The images bound at one binding, by array element, and which elements
/// were set.
#[derive(Clone, Copy, Debug, PartialEq, Eq, Structural)]
pub struct ImageSlot {
    pub image_view: u64,
    pub sampler: u64,
}

/// The buffer range bound at one binding; a null buffer (0) means none.
#[derive(Clone, Copy, Debug, PartialEq, Eq, Structural)]
pub struct BufferState {
    pub buffer: u64,
    pub offset: u64,
    pub range: u64,
}

/// What is bound at one binding of a set.
#[derive(Debug)]
pub struct BindingState {
    images: Vec<ImageSlot>,
    image_update_mask: u32,
    buffer_state: BufferState,
}

impl BindingState {
    /// The image set at each array element.
    pub closed spec fn images(&self) -> Seq<ImageSlot> {
        self.images@
    }

    /// The array elements that were set.
    pub closed spec fn image_mask(&self) -> u32 {
        self.image_update_mask
    }

    /// The buffer range bound.
    pub closed spec fn buffer(&self) -> BufferState {
        self.buffer_state
    }

    pub open spec fn wf(&self) -> bool {
        self.images().len() == MAX_COUNTS_PER_BINDING
    }

    /// Nothing bound.
    pub fn new() -> (b: Self)
        ensures
            is_empty_binding(b),
    {
        let mut images: Vec<ImageSlot> = Vec::new();
        let mut i: usize = 0;
        while i < MAX_COUNTS_PER_BINDING
            invariant
                i <= MAX_COUNTS_PER_BINDING,
                images@ == Seq::new(i as nat, |k: int| ImageSlot { image_view: 0, sampler: 0 }),
            decreases MAX_COUNTS_PER_BINDING - i,
        {
            images.push(ImageSlot { image_view: 0, sampler: 0 });
            i = i + 1;
        }
        BindingState { images, image_update_mask: 0, buffer_state: BufferState { buffer: 0, offset: 0, range: 0 } }
    }

    /// Binds an image view and sampler at array element `ix`.
    pub fn set_image(&mut self, ix: usize, image_view: u64, sampler: u64)
        requires
            old(self).wf(),
            ix < MAX_COUNTS_PER_BINDING,
        ensures
            final(self).wf(),
            final(self).images() == old(self).images().update(ix as int, ImageSlot { image_view, sampler }),
            final(self).image_mask() == with_bit(old(self).image_mask(), ix as u32),
            final(self).buffer() == old(self).buffer(),
    {
        self.images.set(ix, ImageSlot { image_view, sampler });
        self.image_update_mask = self.image_update_mask | (1u32 << (ix as u32));
    }

    /// Binds the range `start`, `range` of `buffer`.
    pub fn set_buffer(&mut self, buffer: u64, start: u64, range: u64)
        ensures
            final(self).images() == old(self).images(),
            final(self).image_mask() == old(self).image_mask(),
            final(self).buffer() == (BufferState { buffer, offset: start, range }),
    {
        self.buffer_state = BufferState { buffer, offset: start, range };
    }
}

/// What is bound in one descriptor set, binding by binding.
#[derive(Debug)]
pub struct DescriptorSetState {
    set: u32,
    bindings: Vec<BindingState>,
}

impl DescriptorSetState {
    /// The set's index.
    pub closed spec fn set_index(&self) -> u32 {
        self.set
    }

    /// The state of each binding.
    pub closed spec fn binding_states(&self) -> Seq<BindingState> {
        self.bindings@
    }

    pub open spec fn wf(&self) -> bool {
        &&& self.binding_states().len() == MAX_BINDINGS_PER_SET
        &&& forall|b: int| 0 <= b < MAX_BINDINGS_PER_SET ==> #[trigger] self.binding_states()[b].wf()
    }

    /// Nothing bound in set `set`.
    pub fn new(set: u32, set_layout: DescriptorSetLayout) -> (s: Self)
        ensures
            s.wf(),
            s.set_index() == set,
            forall|b: int|
                0 <= b < MAX_BINDINGS_PER_SET ==> is_empty_binding(#[trigger] s.binding_states()[b]),
    {
        let s = DescriptorSetState { set, bindings: empty_bindings() };
        assert forall|b: int| 0 <= b < MAX_BINDINGS_PER_SET implies #[trigger] s.binding_states()[b].wf() by {}
        assert forall|b: int| 0 <= b < MAX_BINDINGS_PER_SET implies is_empty_binding(#[trigger] s.binding_states()[b]) by {
            assert(s.binding_states()[b].wf());
        }
        s
    }

    /// Binds an image at array element `ix` of binding `binding`.
    pub fn set_image(&mut self, binding: u32, ix: usize, image_view: u64, sampler: u64)
        requires
            old(self).wf(),
            binding < MAX_BINDINGS_PER_SET,
            ix < MAX_COUNTS_PER_BINDING,
        ensures
            final(self).wf(),
            final(self).set_index() == old(self).set_index(),
            final(self).binding_states().len() == old(self).binding_states().len(),
            forall|b: int| 0 <= b < MAX_BINDINGS_PER_SET && b != binding ==> #[trigger] final(self).binding_states()[b]
                == old(self).binding_states()[b],
            final(self).binding_states()[binding as int].images() == old(self).binding_states()[binding as int].images().update(
                ix as int,
                ImageSlot { image_view, sampler },
            ),
            final(self).binding_states()[binding as int].image_mask() == with_bit(
                old(self).binding_states()[binding as int].image_mask(),
                ix as u32,
            ),
            final(self).binding_states()[binding as int].buffer() == old(self).binding_states()[binding as int].buffer(),
    {
        let idx = binding as usize;
        let ghost before = self.bindings@;
        let mut state = BindingState::new();
        std::mem::swap(&mut state, &mut self.bindings[idx]);
        assert(state == before[binding as int]);
        assert(state.wf());
        state.set_image(ix, image_view, sampler);
        self.bindings.set(idx, state);
        proof {
            assert forall|b: int| 0 <= b < MAX_BINDINGS_PER_SET && b != binding implies #[trigger] self.bindings@[b]
                == before[b] by {}
            assert forall|b: int| 0 <= b < MAX_BINDINGS_PER_SET implies #[trigger] self.binding_states()[b].wf() by {
                if b != binding {
                    assert(self.bindings@[b] == before[b]);
                    assert(old(self).binding_states()[b].wf());
                }
            }
        }
    }

    /// Binds a buffer range at binding `binding`.
    pub fn set_buffer(&mut self, binding: u32, buffer: u64, start: u64, range: u64)
        requires
            old(self).wf(),
            binding < MAX_BINDINGS_PER_SET,
        ensures
            final(self).wf(),
            final(self).set_index() == old(self).set_index(),
            final(self).binding_states().len() == old(self).binding_states().len(),
            forall|b: int| 0 <= b < MAX_BINDINGS_PER_SET && b != binding ==> #[trigger] final(self).binding_states()[b]
                == old(self).binding_states()[b],
            final(self).binding_states()[binding as int].images() == old(self).binding_states()[binding as int].images(),
            final(self).binding_states()[binding as int].image_mask() == old(self).binding_states()[binding as int].image_mask(),
            final(self).binding_states()[binding as int].buffer() == (BufferState { buffer, offset: start, range }),
    {
        let idx = binding as usize;
        let ghost before = self.bindings@;
        let mut state = BindingState::new();
        std::mem::swap(&mut state, &mut self.bindings[idx]);
        assert(state == before[binding as int]);
        assert(state.wf());
        state.set_buffer(buffer, start, range);
        self.bindings.set(idx, state);
        proof {
            assert forall|b: int| 0 <= b < MAX_BINDINGS_PER_SET && b != binding implies #[trigger] self.bindings@[b]
                == before[b] by {}
            assert forall|b: int| 0 <= b < MAX_BINDINGS_PER_SET implies #[trigger] self.binding_states()[b].wf() by {
                if b != binding {
                    assert(self.bindings@[b] == before[b]);
                    assert(old(self).binding_states()[b].wf());
                }
            }
        }
    }

    /// Unbinds everything.
    pub fn reset(&mut self)
        ensures
            final(self).wf(),
            final(self).set_index() == old(self).set_index(),
            forall|b: int|
                0 <= b < MAX_BINDINGS_PER_SET ==> is_empty_binding(#[trigger] final(self).binding_states()[b]),
    {
        self.bindings = empty_bindings();
        assert forall|b: int| 0 <= b < MAX_BINDINGS_PER_SET implies #[trigger] self.binding_states()[b].wf() by {}
        assert forall|b: int| 0 <= b < MAX_BINDINGS_PER_SET implies is_empty_binding(#[trigger] self.binding_states()[b]) by {
            assert(self.binding_states()[b].wf());
        }
    }
}

impl Default for DescriptorSetState {
    /// Set 0 with nothing bound.
    fn default() -> (s: Self)
        ensures
            s.wf(),
            s.set_index() == 0,
            forall|b: int|
                0 <= b < MAX_BINDINGS_PER_SET ==> is_empty_binding(#[trigger] s.binding_states()[b]),
    {
        let s = DescriptorSetState { set: 0, bindings: empty_bindings() };
        assert forall|b: int| 0 <= b < MAX_BINDINGS_PER_SET implies #[trigger] s.binding_states()[b].wf() by {}
        assert forall|b: int| 0 <= b < MAX_BINDINGS_PER_SET implies is_empty_binding(#[trigger] s.binding_states()[b]) by {
            assert(s.binding_states()[b].wf());
        }
        s
    }
}

/// A binding with nothing bound: every image slot and the buffer range are
/// zero, and no image slot is marked as updated.
pub open spec fn is_empty_binding(b: BindingState) -> bool {
    &&& b.wf()
    &&& b.images() == Seq::new(MAX_COUNTS_PER_BINDING as nat, |k: int| ImageSlot { image_view: 0, sampler: 0 })
    &&& b.image_mask() == 0
    &&& b.buffer() == (BufferState { buffer: 0, offset: 0, range: 0 })
}

/// `after` is `before` with an image bound at array element `ix` of `binding`.
pub open spec fn image_bound(
    before: DescriptorSetState,
    after: DescriptorSetState,
    binding: u32,
    ix: usize,
    image_view: u64,
    sampler: u64,
) -> bool {
    &&& after.wf()
    &&& after.set_index() == before.set_index()
    &&& after.binding_states().len() == before.binding_states().len()
    &&& forall|b: int| 0 <= b < MAX_BINDINGS_PER_SET && b != binding ==> #[trigger] after.binding_states()[b]
        == before.binding_states()[b]
    &&& after.binding_states()[binding as int].images() == before.binding_states()[binding as int].images().update(
        ix as int,
        ImageSlot { image_view, sampler },
    )
    &&& after.binding_states()[binding as int].image_mask() == with_bit(
        before.binding_states()[binding as int].image_mask(),
        ix as u32,
    )
    &&& after.binding_states()[binding as int].buffer() == before.binding_states()[binding as int].buffer()
}

/// `after` is `before` with the range `start`, `range` of `buffer` bound at `binding`.
pub open spec fn buffer_bound(
    before: DescriptorSetState,
    after: DescriptorSetState,
    binding: u32,
    buffer: u64,
    start: u64,
    range: u64,
) -> bool {
    &&& after.wf()
    &&& after.set_index() == before.set_index()
    &&& after.binding_states().len() == before.binding_states().len()
    &&& forall|b: int| 0 <= b < MAX_BINDINGS_PER_SET && b != binding ==> #[trigger] after.binding_states()[b]
        == before.binding_states()[b]
    &&& after.binding_states()[binding as int].images() == before.binding_states()[binding as int].images()
    &&& after.binding_states()[binding as int].image_mask() == before.binding_states()[binding as int].image_mask()
    &&& after.binding_states()[binding as int].buffer() == (BufferState { buffer, offset: start, range })
}

/// `after` is `before` with nothing bound.
pub open spec fn set_cleared(before: DescriptorSetState, after: DescriptorSetState) -> bool {
    &&& after.wf()
    &&& after.set_index() == before.set_index()
    &&& forall|b: int|
        0 <= b < MAX_BINDINGS_PER_SET ==> is_empty_binding(#[trigger] after.binding_states()[b])
}

/// The words that identify the images of a binding: its update mask, then
/// the view and sampler of each updated element below `n`, in order.
pub open spec fn image_words_below(b: BindingState, n: int) -> Seq<HashWord>
    decreases n,
{
    if n <= 0 {
        seq![HashWord::U32(b.image_mask())]
    } else {
        let rest = image_words_below(b, n - 1);
        if bit_set(b.image_mask(), (n - 1) as u32) {
            rest + seq![HashWord::U64(b.images()[n - 1].image_view), HashWord::U64(b.images()[n - 1].sampler)]
        } else {
            rest
        }
    }
}

/// The words that identify the images bound in the bindings of `mask` below `n`.
pub open spec fn image_part(bindings: Seq<BindingState>, mask: u32, n: int) -> Seq<HashWord>
    decreases n,
{
    if n <= 0 {
        Seq::empty()
    } else {
        let rest = image_part(bindings, mask, n - 1);
        if bit_set(mask, (n - 1) as u32) {
            rest + image_words_below(bindings[n - 1], MAX_COUNTS_PER_BINDING as int)
        } else {
            rest
        }
    }
}

/// The words that identify the buffers bound in the bindings of `mask` below `n`.
pub open spec fn buffer_part(bindings: Seq<BindingState>, mask: u32, n: int) -> Seq<HashWord>
    decreases n,
{
    if n <= 0 {
        Seq::empty()
    } else {
        let rest = buffer_part(bindings, mask, n - 1);
        if bit_set(mask, (n - 1) as u32) {
            let b = bindings[n - 1].buffer();
            rest + seq![HashWord::U64(b.buffer), HashWord::U64(b.offset), HashWord::U64(b.range)]
        } else {
            rest
        }
    }
}

/// The words that identify what a set binds under `layout`: the images of
/// its image bindings, then the buffers of its buffer bindings.
pub open spec fn set_key_words(state: DescriptorSetState, layout: DescriptorSetLayout) -> Seq<HashWord> {
    let m = layout.bindings().masks();
    image_part(state.binding_states(), m.0 | m.1, MAX_BINDINGS_PER_SET as int) + buffer_part(
        state.binding_states(),
        m.2 | m.3,
        MAX_BINDINGS_PER_SET as int,
    )
}

/// Whether two bindings count as binding the same images: equal update
/// masks, and the same view and sampler at the last updated element below
/// `MAX_COUNTS_PER_BINDING`, which is the only element compared.
pub open spec fn same_image_state(a: BindingState, b: BindingState) -> bool {
    let updated = set_bits_between(a.image_mask(), 0, MAX_COUNTS_PER_BINDING as int);
    &&& a.image_mask() == b.image_mask()
    &&& updated.len() > 0 ==> a.images()[updated.last() as int] == b.images()[updated.last() as int]
}

impl BindingState {
    /// Whether `self` and `other` count as binding the same images.
    pub fn same_images(&self, other: &BindingState) -> (same: bool)
        requires
            self.wf(),
            other.wf(),
        ensures
            same == same_image_state(*self, *other),
    {
        if self.image_update_mask != other.image_update_mask {
            return false;
        }
        let updated = for_each_bit_in_range(self.image_update_mask, 0..MAX_COUNTS_PER_BINDING);
        proof {
            crate::bits::lemma_set_bits_in_range(self.image_mask(), 0, MAX_COUNTS_PER_BINDING as int);
        }
        let mut same = true;
        let mut k: usize = 0;
        while k < updated.len()
            invariant
                self.wf(),
                other.wf(),
                updated@ == set_bits_between(self.image_mask(), 0, MAX_COUNTS_PER_BINDING as int),
                forall|j: int| 0 <= j < updated@.len() ==> #[trigger] updated@[j] < MAX_COUNTS_PER_BINDING,
                k <= updated@.len(),
                k > 0 ==> same == (self.images()[updated@[k - 1] as int] == other.images()[updated@[k - 1] as int]),
                k == 0 ==> same,
            decreases updated@.len() - k,
        {
            let ix = updated[k] as usize;
            let a = self.images[ix];
            let b = other.images[ix];
            same = a.image_view == b.image_view && a.sampler == b.sampler;
            k = k + 1;
        }
        same
    }

    /// The words that identify the binding's images.
    fn image_words(&self) -> (words: Vec<HashWord>)
        requires
            self.wf(),
        ensures
            words@ == image_words_below(*self, MAX_COUNTS_PER_BINDING as int),
    {
        let mut words: Vec<HashWord> = Vec::new();
        words.push(HashWord::U32(self.image_update_mask));
        let mut ix: usize = 0;
        while ix < MAX_COUNTS_PER_BINDING
            invariant
                self.wf(),
                ix <= MAX_COUNTS_PER_BINDING,
                words@ == image_words_below(*self, ix as int),
            decreases MAX_COUNTS_PER_BINDING - ix,
        {
            if (self.image_update_mask >> (ix as u32)) & 1 == 1 {
                let slot = self.images[ix];
                words.push(HashWord::U64(slot.image_view));
                words.push(HashWord::U64(slot.sampler));
                assert(words@ =~= image_words_below(*self, ix as int) + seq![
                    HashWord::U64(slot.image_view),
                    HashWord::U64(slot.sampler),
                ]);
            }
            ix = ix + 1;
        }
        words
    }
}

impl DescriptorSetState {
    /// The words that identify what the set binds under `layout`; the set is
    /// cached under their hash.
    pub fn key_words(&self, layout: &DescriptorSetLayout) -> (words: Vec<HashWord>)
        requires
            self.wf(),
        ensures
            words@ == set_key_words(*self, *layout),
    {
        let image_mask = layout.combined_image_sampler_mask() | layout.storage_image_mask();
        let buffer_mask = layout.uniform_buffer_mask() | layout.storage_buffer_mask();
        let mut words: Vec<HashWord> = Vec::new();
        let mut binding: usize = 0;
        while binding < MAX_BINDINGS_PER_SET
            invariant
                self.wf(),
                binding <= MAX_BINDINGS_PER_SET,
                words@ == image_part(self.binding_states(), image_mask, binding as int),
            decreases MAX_BINDINGS_PER_SET - binding,
        {
            if (image_mask >> (binding as u32)) & 1 == 1 {
                assert(self.binding_states()[binding as int].wf());
                let mut part = self.bindings[binding].image_words();
                let ghost before = words@;
                words.append(&mut part);
            }
            binding = binding + 1;
        }
        let ghost images = words@;
        let mut binding: usize = 0;
        while binding < MAX_BINDINGS_PER_SET
            invariant
                binding <= MAX_BINDINGS_PER_SET,
                self.binding_states().len() == MAX_BINDINGS_PER_SET,
                words@ == images + buffer_part(self.binding_states(), buffer_mask, binding as int),
            decreases MAX_BINDINGS_PER_SET - binding,
        {
            if (buffer_mask >> (binding as u32)) & 1 == 1 {
                let b = self.bindings[binding].buffer_state;
                words.push(HashWord::U64(b.buffer));
                words.push(HashWord::U64(b.offset));
                words.push(HashWord::U64(b.range));
                assert(words@ =~= images + buffer_part(self.binding_states(), buffer_mask, binding as int) + seq![
                    HashWord::U64(b.buffer),
                    HashWord::U64(b.offset),
                    HashWord::U64(b.range),
                ]);
            }
            binding = binding + 1;
        }
        words
    }

    /// The hash under which the set is cached: a fresh Fx hasher fed the
    /// key words (`key_words`) in order, each update mask as a `u32` and each
    /// handle, offset and range as a `u64`. Its value depends on the
    /// machine's word size.
    pub fn hash(&self, layout: &DescriptorSetLayout) -> (h: u64)
        requires
            self.wf(),
    {
        let words = self.key_words(layout);
        hash_words(&words)
    }
}

fn empty_bindings() -> (v: Vec<BindingState>)
    ensures
        v@.len() == MAX_BINDINGS_PER_SET,
        forall|b: int| 0 <= b < MAX_BINDINGS_PER_SET ==> is_empty_binding(#[trigger] v@[b]),
{
    let mut v: Vec<BindingState> = Vec::new();
    let mut i: usize = 0;
    while i < MAX_BINDINGS_PER_SET
        invariant
            i <= MAX_BINDINGS_PER_SET,
            v@.len() == i,
            forall|b: int| 0 <= b < i ==> is_empty_binding(#[trigger] v@[b]),
        decreases MAX_BINDINGS_PER_SET - i,
    {
        v.push(BindingState::new());
        i = i + 1;
    }
    v
}

/// What one descriptor write puts in place.
#[derive(Clone, Copy, Debug, PartialEq, Eq, Structural)]
pub enum WriteInfo {
    Image { image_view: u64, sampler: u64, image_layout: i32 },
    Buffer { buffer: u64, offset: u64, range: u64 },
}

/// One descriptor written into a set: its kind, binding, array element and
/// what it points to.
#[derive(Clone, Copy, Debug, PartialEq, Eq, Structural)]
pub struct DescriptorWrite {
    pub descriptor_type: DescriptorType,
    pub binding: u32,
    pub array_element: u32,
    pub info: WriteInfo,
}

/// The image writes of one binding: one per element set, ascending.
pub open spec fn binding_image_writes(
    state: BindingState,
    binding: u32,
    kind: DescriptorType,
    layout: i32,
    elements: Seq<u32>,
) -> Seq<DescriptorWrite> {
    elements.map_values(
        |ix: u32|
            DescriptorWrite {
                descriptor_type: kind,
                binding,
                array_element: ix,
                info: WriteInfo::Image {
                    image_view: state.images()[ix as int].image_view,
                    sampler: state.images()[ix as int].sampler,
                    image_layout: layout,
                },
            },
    )
}

/// The image writes for the bindings `bindings`, binding after binding.
pub open spec fn image_writes(
    state: DescriptorSetState,
    bindings: Seq<u32>,
    kind: DescriptorType,
    layout: i32,
) -> Seq<DescriptorWrite>
    decreases bindings.len(),
{
    if bindings.len() == 0 {
        Seq::empty()
    } else {
        let b = bindings.last();
        let bs = state.binding_states()[b as int];
        image_writes(state, bindings.drop_last(), kind, layout) + binding_image_writes(
            bs,
            b,
            kind,
            layout,
            set_bits_between(bs.image_mask(), 0, MAX_COUNTS_PER_BINDING as int),
        )
    }
}

/// The buffer writes for the bindings `bindings` that have a buffer bound.
pub open spec fn buffer_writes(state: DescriptorSetState, bindings: Seq<u32>, kind: DescriptorType) -> Seq<
    DescriptorWrite,
>
    decreases bindings.len(),
{
    if bindings.len() == 0 {
        Seq::empty()
    } else {
        let b = bindings.last();
        let buf = state.binding_states()[b as int].buffer();
        let rest = buffer_writes(state, bindings.drop_last(), kind);
        if buf.buffer != 0 {
            rest.push(
                DescriptorWrite {
                    descriptor_type: kind,
                    binding: b,
                    array_element: 0,
                    info: WriteInfo::Buffer { buffer: buf.buffer, offset: buf.offset, range: buf.range },
                },
            )
        } else {
            rest
        }
    }
}

/// All writes that fill a set of layout `layout` from `state`: combined
/// image samplers, storage images, uniform buffers, storage buffers, each
/// kind in ascending binding order.
pub open spec fn set_writes(layout: DescriptorSetLayout, state: DescriptorSetState) -> Seq<DescriptorWrite> {
    let m = layout.bindings().masks();
    let all = MAX_BINDINGS_PER_SET as int;
    image_writes(state, set_bits_between(m.0, 0, all), DescriptorType::CombinedImageSampler, IMAGE_LAYOUT_SHADER_READ_ONLY_OPTIMAL)
        + image_writes(state, set_bits_between(m.1, 0, all), DescriptorType::StorageImage, IMAGE_LAYOUT_GENERAL)
        + buffer_writes(state, set_bits_between(m.2, 0, all), DescriptorType::UniformBuffer)
        + buffer_writes(state, set_bits_between(m.3, 0, all), DescriptorType::StorageBuffer)
}

proof fn lemma_bits_below(mask: u32, lo: int, hi: int)
    requires
        0 <= lo <= hi <= 32,
    ensures
        forall|i: int| 0 <= i < set_bits_between(mask, lo, hi).len() ==> lo <= #[trigger] set_bits_between(mask, lo, hi)[i] < hi,
    decreases hi - lo,
{
    if lo < hi {
        lemma_bits_below(mask, lo, hi - 1);
        let rest = set_bits_between(mask, lo, hi - 1);
        let all = set_bits_between(mask, lo, hi);
        assert forall|i: int| 0 <= i < all.len() implies lo <= #[trigger] all[i] < hi by {
            if i < rest.len() {
                assert(all[i] == rest[i]);
            }
        }
    }
}

fn push_image_writes(
    writes: &mut Vec<DescriptorWrite>,
    state: &DescriptorSetState,
    mask: u32,
    kind: DescriptorType,
    layout: i32,
)
    requires
        state.wf(),
    ensures
        final(writes)@ == old(writes)@ + image_writes(*state, set_bits_between(mask, 0, MAX_BINDINGS_PER_SET as int), kind, layout),
{
    let bindings = for_each_bit_in_range(mask, 0..MAX_BINDINGS_PER_SET);
    proof {
        lemma_bits_below(mask, 0, MAX_BINDINGS_PER_SET as int);
    }
    let ghost start = writes@;
    let mut k: usize = 0;
    while k < bindings.len()
        invariant
            state.wf(),
            k <= bindings@.len(),
            bindings@ == set_bits_between(mask, 0, MAX_BINDINGS_PER_SET as int),
            forall|i: int| 0 <= i < bindings@.len() ==> 0 <= #[trigger] bindings@[i] < MAX_BINDINGS_PER_SET,
            writes@ == start + image_writes(*state, bindings@.take(k as int), kind, layout),
        decreases bindings@.len() - k,
    {
        let b = bindings[k];
        assert(0 <= bindings@[k as int] < MAX_BINDINGS_PER_SET);
        let bs = &state.bindings[b as usize];
        assert(bs.wf());
        let elements = for_each_bit_in_range(bs.image_update_mask, 0..MAX_COUNTS_PER_BINDING);
        proof {
            lemma_bits_below(bs.image_mask(), 0, MAX_COUNTS_PER_BINDING as int);
        }
        let ghost before = writes@;
        let mut e: usize = 0;
        while e < elements.len()
            invariant
                bs.wf(),
                e <= elements@.len(),
                forall|i: int| 0 <= i < elements@.len() ==> 0 <= #[trigger] elements@[i] < MAX_COUNTS_PER_BINDING,
                writes@ == before + binding_image_writes(*bs, b, kind, layout, elements@.take(e as int)),
            decreases elements@.len() - e,
        {
            let ix = elements[e];
            assert(0 <= elements@[e as int] < MAX_COUNTS_PER_BINDING);
            let slot = bs.images[ix as usize];
            writes.push(
                DescriptorWrite {
                    descriptor_type: kind,
                    binding: b,
                    array_element: ix,
                    info: WriteInfo::Image { image_view: slot.image_view, sampler: slot.sampler, image_layout: layout },
                },
            );
            proof {
                assert(elements@.take(e + 1) == elements@.take(e as int).push(ix));
                assert(binding_image_writes(*bs, b, kind, layout, elements@.take(e + 1)) =~= binding_image_writes(
                    *bs,
                    b,
                    kind,
                    layout,
                    elements@.take(e as int),
                ).push(writes@.last()));
            }
            e = e + 1;
        }
        proof {
            assert(elements@.take(elements@.len() as int) == elements@);
            let pre = bindings@.take(k as int);
            let post = bindings@.take(k + 1);
            assert(post.drop_last() == pre);
            assert(post.last() == b);
            assert(state.binding_states()[b as int] == *bs);
        }
        k = k + 1;
    }
    proof {
        assert(bindings@.take(bindings@.len() as int) == bindings@);
    }
}

fn push_buffer_writes(writes: &mut Vec<DescriptorWrite>, state: &DescriptorSetState, mask: u32, kind: DescriptorType)
    requires
        state.wf(),
    ensures
        final(writes)@ == old(writes)@ + buffer_writes(*state, set_bits_between(mask, 0, MAX_BINDINGS_PER_SET as int), kind),
{
    let bindings = for_each_bit_in_range(mask, 0..MAX_BINDINGS_PER_SET);
    proof {
        lemma_bits_below(mask, 0, MAX_BINDINGS_PER_SET as int);
    }
    let ghost start = writes@;
    let mut k: usize = 0;
    while k < bindings.len()
        invariant
            state.wf(),
            k <= bindings@.len(),
            bindings@ == set_bits_between(mask, 0, MAX_BINDINGS_PER_SET as int),
            forall|i: int| 0 <= i < bindings@.len() ==> 0 <= #[trigger] bindings@[i] < MAX_BINDINGS_PER_SET,
            writes@ == start + buffer_writes(*state, bindings@.take(k as int), kind),
        decreases bindings@.len() - k,
    {
        let b = bindings[k];
        assert(0 <= bindings@[k as int] < MAX_BINDINGS_PER_SET);
        let buf = state.bindings[b as usize].buffer_state;
        if buf.buffer != 0 {
            writes.push(
                DescriptorWrite {
                    descriptor_type: kind,
                    binding: b,
                    array_element: 0,
                    info: WriteInfo::Buffer { buffer: buf.buffer, offset: buf.offset, range: buf.range },
                },
            );
        }
        proof {
            let pre = bindings@.take(k as int);
            let post = bindings@.take(k + 1);
            assert(post.drop_last() == pre);
            assert(post.last() == b);
        }
        k = k + 1;
    }
    proof {
        assert(bindings@.take(bindings@.len() as int) == bindings@);
    }
}

/// The writes that fill a freshly allocated set of layout `layout` with what
/// `state` binds: every image element set at a combined-image-sampler or
/// storage-image binding, and every bound buffer at a uniform- or
/// storage-buffer binding.
pub fn plan_set_writes(layout: &DescriptorSetLayout, state: &DescriptorSetState) -> (writes: Vec<DescriptorWrite>)
    requires
        state.wf(),
    ensures
        writes@ == set_writes(*layout, *state),
{
    let mut writes: Vec<DescriptorWrite> = Vec::new();
    push_image_writes(&mut writes, state, layout.combined_image_sampler_mask(), DescriptorType::CombinedImageSampler,
        IMAGE_LAYOUT_SHADER_READ_ONLY_OPTIMAL);
    push_image_writes(&mut writes, state, layout.storage_image_mask(), DescriptorType::StorageImage, IMAGE_LAYOUT_GENERAL);
    push_buffer_writes(&mut writes, state, layout.uniform_buffer_mask(), DescriptorType::UniformBuffer);
    push_buffer_writes(&mut writes, state, layout.storage_buffer_mask(), DescriptorType::StorageBuffer);
    proof {
        let m = layout.bindings().masks();
        let all = MAX_BINDINGS_PER_SET as int;
        assert(writes@ =~= set_writes(*layout, *state));
    }
    writes
}

/// How many frames a descriptor set stays cached after its last use.
pub const SET_CACHE_FRAMES: usize = 4;

/// Where the descriptor set for some contents comes from.
#[derive(Clone, Copy, Debug, PartialEq, Eq, Structural)]
pub enum SetLookup {
    /// A set with these contents is cached: use it as it is.
    Cached(u64),
    /// A set of an earlier frame is reused and now cached for these
    /// contents: fill it with them before use.
    Reused(u64),
    /// No set to reuse: allocate one, cache it, and fill it.
    Allocate,
}

/// The descriptor sets of one layout, cached by the hash of their contents
/// for `SET_CACHE_FRAMES` frames after their last use, and the sets that
/// dropped out of the cache, ready to be filled again.
pub struct DescriptorSetCache {
    temp_map: TemporaryMap<u64, u64, 4>,
    reusable_sets: Vec<u64>,
}

impl DescriptorSetCache {
    /// The cache of sets by content hash.
    pub closed spec fn sets(&self) -> TemporaryMap<u64, u64, 4> {
        self.temp_map
    }

    /// The sets ready for reuse; the last one is reused first.
    pub closed spec fn reusable(&self) -> Seq<u64> {
        self.reusable_sets@
    }

    pub open spec fn wf(&self) -> bool {
        self.sets().wf()
    }

    /// Nothing cached, nothing to reuse.
    pub fn new() -> (c: Self)
        ensures
            c.wf(),
            c.sets().entries() == Map::<u64, u64>::empty(),
            c.sets().current() == 0,
            c.reusable() == Seq::<u64>::empty(),
    {
        broadcast use vstd::std_specs::hash::axiom_u64_obeys_hash_table_key_model;

        DescriptorSetCache { temp_map: TemporaryMap::new(), reusable_sets: Vec::new() }
    }

    /// The set for contents with hash `hash`: the cached one, else the last
    /// reusable one, now cached for them, else none.
    pub fn get(&mut self, hash: u64) -> (r: SetLookup)
        requires
            old(self).wf(),
            old(self).sets().entries().len() < usize::MAX,
        ensures
            final(self).wf(),
            final(self).sets().current() == old(self).sets().current(),
            old(self).sets().entries().contains_key(hash) ==> r == SetLookup::Cached(old(self).sets().entries()[hash])
                && final(self).sets().entries() == old(self).sets().entries()
                && final(self).sets().frame_keys() == touch_frames(old(self).sets().frame_keys(), old(self).sets().current(), hash)
                && final(self).reusable() == old(self).reusable(),
            !old(self).sets().entries().contains_key(hash) && old(self).reusable().len() > 0 ==> r == SetLookup::Reused(
                old(self).reusable().last(),
            ) && final(self).sets().entries() == old(self).sets().entries().insert(hash, old(self).reusable().last())
                && final(self).reusable() == old(self).reusable().drop_last(),
            !old(self).sets().entries().contains_key(hash) && old(self).reusable().len() == 0 ==> r == SetLookup::Allocate
                && final(self).sets().entries() == old(self).sets().entries()
                && final(self).sets().frame_keys() == old(self).sets().frame_keys()
                && final(self).reusable() == old(self).reusable(),
    {
        match self.temp_map.get(&hash) {
            Some(set) => {
                return SetLookup::Cached(*set);
            },
            None => {},
        }
        match self.reusable_sets.pop() {
            Some(set) => {
                self.temp_map.insert(hash, set);
                SetLookup::Reused(set)
            },
            None => SetLookup::Allocate,
        }
    }

    /// Caches the newly allocated set `set` for contents with hash `hash`.
    pub fn insert_allocated(&mut self, hash: u64, set: u64)
        requires
            old(self).wf(),
            old(self).sets().entries().len() < usize::MAX,
        ensures
            final(self).wf(),
            final(self).sets().current() == old(self).sets().current(),
            final(self).sets().entries() == old(self).sets().entries().insert(hash, set),
            final(self).reusable() == old(self).reusable(),
    {
        self.temp_map.insert(hash, set);
    }

    /// Begins the next frame: the sets unused for `SET_CACHE_FRAMES` frames
    /// leave the cache and become reusable.
    pub fn new_frame(&mut self)
        requires
            old(self).wf(),
        ensures
            final(self).wf(),
            final(self).sets().current() == next_frame(old(self).sets().current(), 4),
            final(self).sets().entries() == advanced_entries(old(self).sets().entries(), old(self).sets().frame_keys(), old(self).sets().current(), 4),
            final(self).sets().frame_keys() == advanced_frames(old(self).sets().frame_keys(), old(self).sets().current(), 4),
            final(self).reusable() == old(self).reusable() + expired_values(old(self).sets().entries(), old(self).sets().frame_keys(), old(self).sets().current(), 4),
    {
        let removed = self.temp_map.new_frame();
        let ghost start = self.reusable_sets@;
        let ghost advanced = self.temp_map;
        let mut i: usize = 0;
        while i < removed.len()
            invariant
                i <= removed@.len(),
                self.temp_map == advanced,
                self.reusable_sets@ == start + removed@.take(i as int),
            decreases removed@.len() - i,
        {
            self.reusable_sets.push(removed[i]);
            proof {
                assert(removed@.take(i + 1) == removed@.take(i as int).push(removed@[i as int]));
            }
            i = i + 1;
        }
        proof {
            assert(removed@.take(removed@.len() as int) == removed@);
        }
    }
}

/// A binding added to a layout that has no binding of any kind yet is found
/// again at its id, with its kind, count and stages.
pub proof fn law_added_binding_found(
    before: DescriptorSetLayoutBuilder,
    after: DescriptorSetLayoutBuilder,
    id: u32,
    kind: DescriptorType,
    count: u32,
    stage_flags: u32,
)
    requires
        before.wf(),
        id < MAX_COUNTS_PER_BINDING,
        stage_flags != 0,
        before.masks() == (0u32, 0u32, 0u32, 0u32),
        after.masks() == (match kind {
            DescriptorType::CombinedImageSampler => (with_bit(0, id), 0u32, 0u32, 0u32),
            DescriptorType::StorageImage => (0u32, with_bit(0, id), 0u32, 0u32),
            DescriptorType::UniformBuffer => (0u32, 0u32, with_bit(0, id), 0u32),
            DescriptorType::StorageBuffer => (0u32, 0u32, 0u32, with_bit(0, id)),
        }),
        after.stages() == before.stages().update(id as int, before.stages()[id as int] | stage_flags),
        after.binding_counts() == before.binding_counts().update(id as int, count),
    ensures
        binding_at(after.masks(), after.stages(), after.binding_counts(), id) == Some(
            (kind, count, before.stages()[id as int] | stage_flags),
        ),
{
    let old_stages = before.stages()[id as int];
    assert(old_stages | stage_flags != 0) by (bit_vector)
        requires
            stage_flags != 0,
    ;
    assert(bit_set(with_bit(0, id), id)) by (bit_vector)
        requires
            id < 5,
    ;
    assert(!bit_set(0, id)) by (bit_vector);
}

} // verus!
