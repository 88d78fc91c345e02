//! Slots of the bindless descriptor arrays: an allocator of slot indices
//! that reuses freed slots first, oldest first, the typed handle of an
//! allocated slot, and which descriptors an allocated image or buffer gets.
use vstd::prelude::*;
use std::collections::VecDeque;
use std::marker::PhantomData;

verus! {

/// Hands out slot indices, starting at 1; freed indices are handed out again,
/// in the order they were freed, before new ones.
pub struct IndexAllocator {
    new_index: usize,
    freed_indices: VecDeque<usize>,
}

impl IndexAllocator {
    /// The next index never handed out so far.
    pub closed spec fn next_fresh(&self) -> nat {
        self.new_index as nat
    }

    /// The freed indices waiting to be handed out again, oldest first.
    pub closed spec fn freed(&self) -> Seq<usize> {
        self.freed_indices@
    }

    /// No index is 0: fresh indices start at 1 and only non-zero indices are freed.
    pub open spec fn wf(&self) -> bool {
        &&& self.next_fresh() >= 1
        &&& forall|i: int| 0 <= i < self.freed().len() ==> #[trigger] self.freed()[i] > 0
    }

    /// The indices handed out and not freed since.
    pub open spec fn live(&self) -> Set<usize> {
        Set::new(|i: usize| 1 <= i < self.next_fresh() && !self.freed().contains(i))
    }

    /// Every freed index was handed out before and is freed only once.
    pub open spec fn consistent(&self) -> bool {
        &&& self.wf()
        &&& self.freed().no_duplicates()
        &&& forall|i: int| 0 <= i < self.freed().len() ==> #[trigger] self.freed()[i] < self.next_fresh()
    }

    /// An allocator that has handed out nothing.
    pub fn new() -> (a: Self)
        ensures
            a.wf(),
            a.consistent(),
            a.next_fresh() == 1,
            a.freed() == Seq::<usize>::empty(),
            a.live() == Set::<usize>::empty(),
    {
        let a = IndexAllocator { new_index: 1, freed_indices: VecDeque::new() };
        assert(a.live() =~= Set::<usize>::empty());
        a
    }

    /// Whether one more index can be handed out: a freed one waits, or the
    /// fresh indices are not used up.
    pub fn can_allocate(&self) -> (b: bool)
        ensures
            b == (self.freed().len() > 0 || self.next_fresh() < usize::MAX),
    {
        self.freed_indices.len() > 0 || self.new_index < usize::MAX
    }

    /// The oldest freed index, or else the next fresh one.
    pub fn allocate(&mut self) -> (index: usize)
        requires
            old(self).wf(),
            old(self).freed().len() > 0 || old(self).next_fresh() < usize::MAX,
        ensures
            final(self).wf(),
            index > 0,
            old(self).freed().len() > 0 ==> index == old(self).freed()[0] && final(self).freed()
                == old(self).freed().drop_first() && final(self).next_fresh() == old(self).next_fresh(),
            old(self).freed().len() == 0 ==> index == old(self).next_fresh() && final(self).freed()
                == old(self).freed() && final(self).next_fresh() == old(self).next_fresh() + 1,
            old(self).consistent() ==> final(self).consistent() && !old(self).live().contains(index)
                && final(self).live() == old(self).live().insert(index),
    {
        let ghost before = *self;
        match self.freed_indices.pop_front() {
            Some(index) => {
                proof {
                    assert(before.freed()[0] == index);
                    assert(self.freed() == before.freed().drop_first());
                    if before.consistent() {
                        assert(!self.freed().contains(index)) by {
                            if self.freed().contains(index) {
                                let k = choose|k: int| 0 <= k < self.freed().len() && self.freed()[k] == index;
                                assert(before.freed()[k + 1] == before.freed()[0]);
                            }
                        }
                        assert(self.live() =~= before.live().insert(index)) by {
                            assert forall|i: usize| before.freed().contains(i) && i != index implies self.freed().contains(i) by {
                                let k = choose|k: int| 0 <= k < before.freed().len() && before.freed()[k] == i;
                                assert(self.freed()[k - 1] == i);
                            }
                            assert forall|i: usize| self.freed().contains(i) implies before.freed().contains(i) by {
                                let k = choose|k: int| 0 <= k < self.freed().len() && self.freed()[k] == i;
                                assert(before.freed()[k + 1] == i);
                            }
                        }
                        assert(before.freed().contains(index)) by {
                            assert(before.freed()[0] == index);
                        }
                    }
                    assert forall|i: int| 0 <= i < self.freed().len() implies #[trigger] self.freed()[i] > 0 by {
                        assert(before.freed()[i + 1] > 0);
                    }
                }
                index
            },
            None => {
                let index = self.new_index;
                self.new_index = self.new_index + 1;
                proof {
                    if before.consistent() {
                        assert(self.live() =~= before.live().insert(index));
                    }
                }
                index
            },
        }
    }

    /// Returns `index` for reuse.
    pub fn deallocate(&mut self, index: usize)
        requires
            old(self).wf(),
            index > 0,
        ensures
            final(self).wf(),
            final(self).freed() == old(self).freed().push(index),
            final(self).next_fresh() == old(self).next_fresh(),
            old(self).consistent() && old(self).live().contains(index) ==> final(self).consistent()
                && final(self).live() == old(self).live().remove(index),
    {
        let ghost before = *self;
        self.freed_indices.push_back(index);
        proof {
            assert(self.freed() == before.freed().push(index));
            assert forall|i: int| 0 <= i < self.freed().len() implies #[trigger] self.freed()[i] > 0 by {
                if i < before.freed().len() {
                    assert(self.freed()[i] == before.freed()[i]);
                }
            }
            if before.consistent() && before.live().contains(index) {
                assert forall|i: int| 0 <= i < self.freed().len() implies #[trigger] self.freed()[i]
                    < self.next_fresh() by {
                    if i < before.freed().len() {
                        assert(self.freed()[i] == before.freed()[i]);
                    }
                }
                assert forall|a: int, b: int| 0 <= a < b < self.freed().len() implies self.freed()[a]
                    != self.freed()[b] by {
                    if b == before.freed().len() {
                        assert(before.freed().contains(before.freed()[a]));
                    }
                }
                assert(self.live() =~= before.live().remove(index)) by {
                    assert forall|i: usize| self.freed().contains(i) && i != index implies before.freed().contains(i) by {
                        let k = choose|k: int| 0 <= k < self.freed().len() && self.freed()[k] == i;
                        assert(before.freed()[k] == i);
                    }
                    assert forall|i: usize| before.freed().contains(i) implies self.freed().contains(i) by {
                        let k = choose|k: int| 0 <= k < before.freed().len() && before.freed()[k] == i;
                        assert(self.freed()[k] == i);
                    }
                    assert(self.freed()[before.freed().len() as int] == index);
                }
            }
        }
    }
}

/// Two allocations with no deallocation between them give different indices.
pub proof fn law_allocations_differ(a0: IndexAllocator, a1: IndexAllocator, a2: IndexAllocator, i1: usize, i2: usize)
    requires
        a0.consistent(),
        a1.consistent(),
        !a0.live().contains(i1),
        a1.live() == a0.live().insert(i1),
        !a1.live().contains(i2),
        a2.live() == a1.live().insert(i2),
    ensures
        i1 != i2,
        a2.live().contains(i1) && a2.live().contains(i2),
{
    assert(a1.live().contains(i1));
}

/// The slot of a resource of type `T` in a bindless descriptor array.
#[derive(Debug, Hash)]
pub struct BindlessHandle<T> {
    slot: usize,
    _marker: PhantomData<T>,
}

impl<T> BindlessHandle<T> {
    /// Slot 0 is never handed out.
    #[verifier::type_invariant]
    spec fn slot_in_use(&self) -> bool {
        self.slot > 0
    }

    /// The slot the handle names.
    pub closed spec fn slot(&self) -> usize {
        self.slot
    }

    /// The handle of slot `index`; slot indices are never 0.
    pub fn from_raw(index: usize) -> (h: Self)
        requires
            index > 0,
        ensures
            h.slot() == index,
    {
        BindlessHandle { slot: index, _marker: PhantomData }
    }

    /// The slot's index, which is never 0.
    pub fn index(&self) -> (i: usize)
        ensures
            i == self.slot(),
            i > 0,
    {
        proof {
            use_type_invariant(self);
        }
        self.slot
    }
}

impl<T> Clone for BindlessHandle<T> {
    fn clone(&self) -> (h: Self)
        ensures
            h == *self,
    {
        proof {
            use_type_invariant(self);
        }
        BindlessHandle { slot: self.slot, _marker: PhantomData }
    }
}

impl<T> Copy for BindlessHandle<T> {

}

impl<T> PartialEq for BindlessHandle<T> {
    fn eq(&self, other: &Self) -> (r: bool) {
        self.slot == other.slot
    }
}

impl<T> vstd::std_specs::cmp::PartialEqSpecImpl for BindlessHandle<T> {
    open spec fn obeys_eq_spec() -> bool {
        true
    }

    open spec fn eq_spec(&self, other: &Self) -> bool {
        self.slot() == other.slot()
    }
}

impl<T> Eq for BindlessHandle<T> {

}

/// Image usage flag: the image can be sampled.
pub const IMAGE_USAGE_SAMPLED: u32 = 0x4;

/// Image usage flag: the image can be a storage image.
pub const IMAGE_USAGE_STORAGE: u32 = 0x8;

/// Buffer usage flag: the buffer can be a storage buffer.
pub const BUFFER_USAGE_STORAGE_BUFFER: u32 = 0x20;

/// Vulkan image layout `GENERAL`.
pub const IMAGE_LAYOUT_GENERAL: i32 = 1;

/// Vulkan image layout `SHADER_READ_ONLY_OPTIMAL`.
pub const IMAGE_LAYOUT_SHADER_READ_ONLY_OPTIMAL: i32 = 5;

/// The kinds of descriptor in the bindless set; each kind is the binding of
/// the same number.
#[derive(Clone, Copy, Debug, PartialEq, Eq, Structural)]
pub enum BindlessResource {
    CombinedImageSampler,
    StorageImage,
    UniformBuffer,
    StorageBuffer,
}

impl BindlessResource {
    /// The binding of the kind in the bindless set.
    pub open spec fn binding_spec(self) -> u32 {
        match self {
            BindlessResource::CombinedImageSampler => 0,
            BindlessResource::StorageImage => 1,
            BindlessResource::UniformBuffer => 2,
            BindlessResource::StorageBuffer => 3,
        }
    }

    /// The `VkDescriptorType` value of the kind.
    pub open spec fn descriptor_type_spec(self) -> i32 {
        match self {
            BindlessResource::CombinedImageSampler => 1,
            BindlessResource::StorageImage => 3,
            BindlessResource::UniformBuffer => 6,
            BindlessResource::StorageBuffer => 7,
        }
    }

    /// The binding of the kind in the bindless set.
    pub fn binding(self) -> (b: u32)
        ensures
            b == self.binding_spec(),
    {
        match self {
            BindlessResource::CombinedImageSampler => 0,
            BindlessResource::StorageImage => 1,
            BindlessResource::UniformBuffer => 2,
            BindlessResource::StorageBuffer => 3,
        }
    }

    /// The `VkDescriptorType` value of the kind.
    pub fn vk_descriptor_type(self) -> (t: i32)
        ensures
            t == self.descriptor_type_spec(),
    {
        match self {
            BindlessResource::CombinedImageSampler => 1,
            BindlessResource::StorageImage => 3,
            BindlessResource::UniformBuffer => 6,
            BindlessResource::StorageBuffer => 7,
        }
    }
}

/// The bindings the bindless set layout declares, in order.
pub fn bindless_set_bindings() -> (b: Vec<BindlessResource>)
    ensures
        b@ == seq![
            BindlessResource::CombinedImageSampler,
            BindlessResource::StorageImage,
            BindlessResource::StorageBuffer,
        ],
{
    vec![BindlessResource::CombinedImageSampler, BindlessResource::StorageImage, BindlessResource::StorageBuffer]
}

/// A descriptor the caller writes into the bindless set: the kind (and so
/// the binding), the array element, and for images the layout they are in.
#[derive(Clone, Copy, Debug, PartialEq, Eq, Structural)]
pub struct BindlessWrite {
    pub resource: BindlessResource,
    pub index: usize,
    pub image_layout: i32,
}

/// The writes an image with usage flags `usage` gets at slot `index`: a
/// combined image sampler if it can be sampled, then a storage image if it
/// can be stored to.
pub open spec fn image_writes(usage: u32, index: usize) -> Seq<BindlessWrite> {
    let sampled: Seq<BindlessWrite> = if usage & IMAGE_USAGE_SAMPLED == IMAGE_USAGE_SAMPLED {
        seq![BindlessWrite {
            resource: BindlessResource::CombinedImageSampler,
            index,
            image_layout: IMAGE_LAYOUT_SHADER_READ_ONLY_OPTIMAL,
        }]
    } else {
        Seq::empty()
    };
    let storage: Seq<BindlessWrite> = if usage & IMAGE_USAGE_STORAGE == IMAGE_USAGE_STORAGE {
        seq![BindlessWrite { resource: BindlessResource::StorageImage, index, image_layout: IMAGE_LAYOUT_GENERAL }]
    } else {
        Seq::empty()
    };
    sampled + storage
}

/// Marks handles of image views in the bindless set.
pub struct ImageView;

/// Marks handles of buffers in the bindless set.
pub struct Buffer;

/// How `allocate` moves an allocator from `before` to `after`, handing out `index`.
pub open spec fn allocation(before: IndexAllocator, after: IndexAllocator, index: usize) -> bool {
    &&& after.wf()
    &&& index > 0
    &&& before.freed().len() > 0 ==> index == before.freed()[0] && after.freed() == before.freed().drop_first()
        && after.next_fresh() == before.next_fresh()
    &&& before.freed().len() == 0 ==> index == before.next_fresh() && after.freed() == before.freed()
        && after.next_fresh() == before.next_fresh() + 1
    &&& before.consistent() ==> after.consistent() && !before.live().contains(index) && after.live()
        == before.live().insert(index)
}

/// Whether an allocator can hand out one more index.
pub open spec fn can_allocate(a: IndexAllocator) -> bool {
    a.freed().len() > 0 || a.next_fresh() < usize::MAX
}

/// The slot allocators of the bindless set. Images and buffers are both
/// handed slots from the image allocator; freed buffer slots go back to the
/// buffer allocator.
pub struct BindlessResources {
    image_indices: IndexAllocator,
    buffer_indices: IndexAllocator,
}

impl BindlessResources {
    /// The allocator of image slots.
    pub closed spec fn images(&self) -> IndexAllocator {
        self.image_indices
    }

    /// The allocator that freed buffer slots go back to.
    pub closed spec fn buffers(&self) -> IndexAllocator {
        self.buffer_indices
    }

    pub open spec fn wf(&self) -> bool {
        self.images().wf() && self.buffers().wf()
    }

    /// Nothing allocated.
    pub fn new() -> (r: Self)
        ensures
            r.wf(),
            r.images().consistent() && r.images().next_fresh() == 1 && r.images().freed().len() == 0,
            r.buffers().consistent() && r.buffers().next_fresh() == 1 && r.buffers().freed().len() == 0,
    {
        BindlessResources { image_indices: IndexAllocator::new(), buffer_indices: IndexAllocator::new() }
    }

    /// Gives an image with usage flags `usage` a slot, and the descriptors
    /// to write there.
    pub fn allocate_image(&mut self, usage: u32) -> (r: (BindlessHandle<ImageView>, Vec<BindlessWrite>))
        requires
            old(self).wf(),
            can_allocate(old(self).images()),
        ensures
            final(self).wf(),
            allocation(old(self).images(), final(self).images(), r.0.slot()),
            final(self).buffers() == old(self).buffers(),
            r.1@ == image_writes(usage, r.0.slot()),
    {
        let index = self.image_indices.allocate();
        let handle: BindlessHandle<ImageView> = BindlessHandle::from_raw(index);
        let mut writes: Vec<BindlessWrite> = Vec::new();
        if usage & IMAGE_USAGE_SAMPLED == IMAGE_USAGE_SAMPLED {
            writes.push(
                BindlessWrite {
                    resource: BindlessResource::CombinedImageSampler,
                    index,
                    image_layout: IMAGE_LAYOUT_SHADER_READ_ONLY_OPTIMAL,
                },
            );
        }
        if usage & IMAGE_USAGE_STORAGE == IMAGE_USAGE_STORAGE {
            writes.push(
                BindlessWrite { resource: BindlessResource::StorageImage, index, image_layout: IMAGE_LAYOUT_GENERAL },
            );
        }
        assert(writes@ =~= image_writes(usage, index));
        (handle, writes)
    }

    /// Frees an image's slot.
    pub fn deallocate_image(&mut self, handle: BindlessHandle<ImageView>)
        requires
            old(self).wf(),
        ensures
            final(self).wf(),
            final(self).images().freed() == old(self).images().freed().push(handle.slot()),
            final(self).images().next_fresh() == old(self).images().next_fresh(),
            old(self).images().consistent() && old(self).images().live().contains(handle.slot())
                ==> final(self).images().consistent() && final(self).images().live() == old(
                self,
            ).images().live().remove(handle.slot()),
            final(self).buffers() == old(self).buffers(),
    {
        self.image_indices.deallocate(handle.index());
    }

    /// Gives a storage buffer a slot, taken from the image allocator, and the
    /// descriptor to write there.
    pub fn allocate_buffer(&mut self, usage: u32) -> (r: (BindlessHandle<Buffer>, BindlessWrite))
        requires
            old(self).wf(),
            can_allocate(old(self).images()),
            usage & BUFFER_USAGE_STORAGE_BUFFER == BUFFER_USAGE_STORAGE_BUFFER,
        ensures
            final(self).wf(),
            allocation(old(self).images(), final(self).images(), r.0.slot()),
            final(self).buffers() == old(self).buffers(),
            r.1 == (BindlessWrite { resource: BindlessResource::StorageBuffer, index: r.0.slot(), image_layout: 0 }),
    {
        let index = self.image_indices.allocate();
        let handle: BindlessHandle<Buffer> = BindlessHandle::from_raw(index);
        (handle, BindlessWrite { resource: BindlessResource::StorageBuffer, index, image_layout: 0 })
    }

    /// Frees a buffer's slot into the buffer allocator.
    pub fn deallocate_buffer(&mut self, handle: BindlessHandle<Buffer>)
        requires
            old(self).wf(),
        ensures
            final(self).wf(),
            final(self).buffers().freed() == old(self).buffers().freed().push(handle.slot()),
            final(self).buffers().next_fresh() == old(self).buffers().next_fresh(),
            final(self).images() == old(self).images(),
    {
        self.buffer_indices.deallocate(handle.index());
    }
}

/// The descriptors written for an image at a slot: every write is at that
/// slot; it gets a combined image sampler in the shader-read-only layout
/// exactly when its usage has the sampled bit, whatever the storage bit
/// says, and a storage image in the general layout exactly when its usage
/// has the storage bit; nothing else is written.
pub proof fn law_image_writes_follow_usage(usage: u32, index: usize)
    ensures
        forall|k: int|
            0 <= k < image_writes(usage, index).len() ==> (#[trigger] image_writes(usage, index)[k]).index == index,
        (usage & IMAGE_USAGE_SAMPLED != 0) <==> image_writes(usage, index).contains(
            BindlessWrite {
                resource: BindlessResource::CombinedImageSampler,
                index,
                image_layout: IMAGE_LAYOUT_SHADER_READ_ONLY_OPTIMAL,
            },
        ),
        (usage & IMAGE_USAGE_STORAGE != 0) <==> image_writes(usage, index).contains(
            BindlessWrite { resource: BindlessResource::StorageImage, index, image_layout: IMAGE_LAYOUT_GENERAL },
        ),
        forall|k: int|
            0 <= k < image_writes(usage, index).len() ==> {
                let w = #[trigger] image_writes(usage, index)[k];
                ||| w.resource == BindlessResource::CombinedImageSampler && w.image_layout
                    == IMAGE_LAYOUT_SHADER_READ_ONLY_OPTIMAL
                ||| w.resource == BindlessResource::StorageImage && w.image_layout == IMAGE_LAYOUT_GENERAL
            },
        image_writes(usage, index).len() == (if usage & IMAGE_USAGE_SAMPLED != 0 {
            1int
        } else {
            0int
        }) + (if usage & IMAGE_USAGE_STORAGE != 0 {
            1int
        } else {
            0int
        }),
{
    assert((usage & 0x4u32 != 0) == (usage & 0x4u32 == 0x4u32)) by (bit_vector);
    assert((usage & 0x8u32 != 0) == (usage & 0x8u32 == 0x8u32)) by (bit_vector);
    let w = image_writes(usage, index);
    let cis = BindlessWrite {
        resource: BindlessResource::CombinedImageSampler,
        index,
        image_layout: IMAGE_LAYOUT_SHADER_READ_ONLY_OPTIMAL,
    };
    let st = BindlessWrite { resource: BindlessResource::StorageImage, index, image_layout: IMAGE_LAYOUT_GENERAL };
    if usage & IMAGE_USAGE_SAMPLED != 0 {
        assert(w[0] == cis);
    }
    if usage & IMAGE_USAGE_STORAGE != 0 {
        assert(w[w.len() - 1] == st);
    }
}

} // verus!
