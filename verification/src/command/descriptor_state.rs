//! What is bound for the descriptor sets and push constants of a command
//! buffer, which sets changed since they were last bound, and what a flush
//! before a draw or dispatch has to bind.
use vstd::prelude::*;
use crate::bits::{for_each_bit, set_bits_between};
use crate::descriptor::{
    buffer_bound, image_bound, is_empty_binding, set_cleared, DescriptorSetState, MAX_BINDINGS_PER_SET, MAX_COUNTS_PER_BINDING,
    MAX_DESCRIPTOR_SETS,
};

verus! {

/// The size in bytes of the push-constant block.
pub const PUSH_CONSTANT_SIZE: usize = 128;

/// The mask with a bit for every descriptor set.
pub const ALL_SETS_MASK: u32 = 0xf;

/// What a flush binds, in this order: the bindless set, then the descriptor
/// set of each index in `sets`, then the push constants in the byte range
/// `push_constant_range` (offset, length), if any.
pub struct FlushPlan {
    pub bindless_set: Option<u64>,
    pub sets: Vec<u32>,
    pub push_constant_range: Option<(usize, usize)>,
}

/// The descriptor sets and push constants bound in a command buffer.
/// `bindless_set_id` is the index of the set that holds the bindless
/// resources; it is never bound through `set_image` or `set_buffer`.
pub struct DescriptorState {
    bindless_set_id: u32,
    bindless_set: u64,
    sets: Vec<DescriptorSetState>,
    push_constant_data: Vec<u8>,
    dirty_sets: u32,
    push_constant_update_range: Option<(usize, usize)>,
}

impl DescriptorState {
    /// The index of the bindless set.
    pub closed spec fn bindless_set_id_view(&self) -> u32 {
        self.bindless_set_id
    }

    /// The bindless descriptor set bound (0 for none).
    pub closed spec fn bindless_set_view(&self) -> u64 {
        self.bindless_set
    }

    /// What is bound in each descriptor set.
    pub closed spec fn set_states(&self) -> Seq<DescriptorSetState> {
        self.sets@
    }

    /// The push-constant bytes.
    pub closed spec fn push_data(&self) -> Seq<u8> {
        self.push_constant_data@
    }

    /// The sets changed since they were last bound, one bit each.
    pub closed spec fn dirty(&self) -> u32 {
        self.dirty_sets
    }

    /// The push-constant bytes written since they were last pushed.
    pub closed spec fn update_range(&self) -> Option<(usize, usize)> {
        self.push_constant_update_range
    }

    pub open spec fn wf(&self) -> bool {
        &&& self.bindless_set_id_view() < MAX_DESCRIPTOR_SETS
        &&& self.set_states().len() == MAX_DESCRIPTOR_SETS
        &&& forall|i: int| 0 <= i < MAX_DESCRIPTOR_SETS ==> #[trigger] self.set_states()[i].wf()
        &&& self.push_data().len() == PUSH_CONSTANT_SIZE
        &&& self.dirty() & ALL_SETS_MASK == self.dirty()
        &&& match self.update_range() {
            Some((start, len)) => start + len <= PUSH_CONSTANT_SIZE,
            None => true,
        }
    }

    /// Nothing bound, nothing dirty; set `bindless_set_id` holds the bindless resources.
    pub fn new(bindless_set_id: u32) -> (s: Self)
        requires
            bindless_set_id < MAX_DESCRIPTOR_SETS,
        ensures
            s.wf(),
            s.bindless_set_id_view() == bindless_set_id,
            s.bindless_set_view() == 0,
            forall|i: int| 0 <= i < MAX_DESCRIPTOR_SETS ==> #[trigger] s.set_states()[i].set_index() == 0,
            forall|i: int, b: int|
                0 <= i < MAX_DESCRIPTOR_SETS && 0 <= b < MAX_BINDINGS_PER_SET ==> is_empty_binding(
                    #[trigger] s.set_states()[i].binding_states()[b],
                ),
            s.push_data() == Seq::new(PUSH_CONSTANT_SIZE as nat, |i: int| 0u8),
            s.dirty() == 0,
            s.update_range() is None,
    {
        let mut sets: Vec<DescriptorSetState> = Vec::new();
        let mut i: usize = 0;
        while i < MAX_DESCRIPTOR_SETS
            invariant
                i <= MAX_DESCRIPTOR_SETS,
                sets@.len() == i,
                forall|k: int| 0 <= k < i ==> (#[trigger] sets@[k]).wf() && sets@[k].set_index() == 0,
                forall|k: int, b: int|
                    0 <= k < i && 0 <= b < MAX_BINDINGS_PER_SET ==> is_empty_binding(
                        #[trigger] sets@[k].binding_states()[b],
                    ),
            decreases MAX_DESCRIPTOR_SETS - i,
        {
            let s = DescriptorSetState::default();
            sets.push(s);
            i = i + 1;
        }
        let mut data: Vec<u8> = Vec::new();
        let mut j: usize = 0;
        while j < PUSH_CONSTANT_SIZE
            invariant
                j <= PUSH_CONSTANT_SIZE,
                data@ == Seq::new(j as nat, |i: int| 0u8),
            decreases PUSH_CONSTANT_SIZE - j,
        {
            data.push(0);
            j = j + 1;
        }
        assert(0u32 & 0xfu32 == 0u32) by (bit_vector);
        DescriptorState {
            bindless_set_id,
            bindless_set: 0,
            sets,
            push_constant_data: data,
            dirty_sets: 0,
            push_constant_update_range: None,
        }
    }

    /// Binds an image view and sampler at array element `ix` of `binding` in
    /// set `set`, and marks the set dirty.
    pub fn set_image(&mut self, image_view: u64, sampler: u64, set: u32, binding: u32, ix: usize)
        requires
            old(self).wf(),
            set < MAX_DESCRIPTOR_SETS,
            set != old(self).bindless_set_id_view(),
            binding < MAX_BINDINGS_PER_SET,
            ix < MAX_COUNTS_PER_BINDING,
        ensures
            final(self).wf(),
            final(self).dirty() == old(self).dirty() | (1u32 << set),
            image_bound(old(self).set_states()[set as int], final(self).set_states()[set as int], binding, ix, image_view, sampler),
            forall|i: int| 0 <= i < MAX_DESCRIPTOR_SETS && i != set ==> #[trigger] final(self).set_states()[i] == old(self).set_states()[i],
            final(self).bindless_set_id_view() == old(self).bindless_set_id_view(),
            final(self).bindless_set_view() == old(self).bindless_set_view(),
            final(self).push_data() == old(self).push_data(),
            final(self).update_range() == old(self).update_range(),
    {
        self.mark_dirty(set);
        let idx = set as usize;
        let ghost before = self.sets@;
        let mut state = DescriptorSetState::default();
        std::mem::swap(&mut state, &mut self.sets[idx]);
        assert(state == before[set as int]);
        state.set_image(binding, ix, image_view, sampler);
        self.sets.set(idx, state);
        proof {
            assert forall|i: int| 0 <= i < MAX_DESCRIPTOR_SETS implies #[trigger] self.sets@[i].wf() by {
                if i != set {
                    assert(self.sets@[i] == before[i]);
                }
            }
        }
    }

    /// Binds the range `start`, `range` of `buffer` at `binding` in set
    /// `set`, and marks the set dirty.
    pub fn set_buffer(&mut self, buffer: u64, start: u64, range: u64, set: u32, binding: u32)
        requires
            old(self).wf(),
            set < MAX_DESCRIPTOR_SETS,
            set != old(self).bindless_set_id_view(),
            binding < MAX_BINDINGS_PER_SET,
        ensures
            final(self).wf(),
            final(self).dirty() == old(self).dirty() | (1u32 << set),
            buffer_bound(old(self).set_states()[set as int], final(self).set_states()[set as int], binding, buffer, start, range),
            forall|i: int| 0 <= i < MAX_DESCRIPTOR_SETS && i != set ==> #[trigger] final(self).set_states()[i] == old(self).set_states()[i],
            final(self).bindless_set_id_view() == old(self).bindless_set_id_view(),
            final(self).bindless_set_view() == old(self).bindless_set_view(),
            final(self).push_data() == old(self).push_data(),
            final(self).update_range() == old(self).update_range(),
    {
        self.mark_dirty(set);
        let idx = set as usize;
        let ghost before = self.sets@;
        let mut state = DescriptorSetState::default();
        std::mem::swap(&mut state, &mut self.sets[idx]);
        assert(state == before[set as int]);
        state.set_buffer(binding, buffer, start, range);
        self.sets.set(idx, state);
        proof {
            assert forall|i: int| 0 <= i < MAX_DESCRIPTOR_SETS implies #[trigger] self.sets@[i].wf() by {
                if i != set {
                    assert(self.sets@[i] == before[i]);
                }
            }
        }
    }

    /// Sets the bit of `set` in the dirty mask.
    fn mark_dirty(&mut self, set: u32)
        requires
            old(self).wf(),
            set < MAX_DESCRIPTOR_SETS,
        ensures
            final(self).wf(),
            final(self).dirty() == old(self).dirty() | (1u32 << set),
            final(self).set_states() == old(self).set_states(),
            final(self).bindless_set_id_view() == old(self).bindless_set_id_view(),
            final(self).bindless_set_view() == old(self).bindless_set_view(),
            final(self).push_data() == old(self).push_data(),
            final(self).update_range() == old(self).update_range(),
    {
        let d = self.dirty_sets;
        assert(d & 0xfu32 == d && set < 4 ==> (d | (1u32 << set)) & 0xfu32 == (d | (1u32 << set))) by (bit_vector);
        self.dirty_sets = d | (1u32 << set);
    }

    /// Binds the bindless descriptor set and marks its set dirty.
    pub fn set_bindless(&mut self, set: u64)
        requires
            old(self).wf(),
        ensures
            final(self).wf(),
            final(self).bindless_set_view() == set,
            final(self).dirty() == old(self).dirty() | (1u32 << old(self).bindless_set_id_view()),
            final(self).set_states() == old(self).set_states(),
            final(self).bindless_set_id_view() == old(self).bindless_set_id_view(),
            final(self).push_data() == old(self).push_data(),
            final(self).update_range() == old(self).update_range(),
    {
        self.bindless_set = set;
        let id = self.bindless_set_id;
        self.mark_dirty(id);
    }

    /// Writes `data` into the push-constant block at byte `offset`; these
    /// bytes are pushed at the next flush.
    pub fn push_constants(&mut self, data: &[u8], offset: usize)
        requires
            old(self).wf(),
            offset % 4 == 0,
            offset + data@.len() <= PUSH_CONSTANT_SIZE,
        ensures
            final(self).wf(),
            final(self).push_data() == old(self).push_data().subrange(0, offset as int) + data@
                + old(self).push_data().subrange(offset + data@.len(), PUSH_CONSTANT_SIZE as int),
            final(self).update_range() == Some((offset, data@.len() as usize)),
            final(self).dirty() == old(self).dirty(),
            final(self).set_states() == old(self).set_states(),
            final(self).bindless_set_id_view() == old(self).bindless_set_id_view(),
            final(self).bindless_set_view() == old(self).bindless_set_view(),
    {
        let ghost before = self.push_constant_data@;
        let n = data.len();
        let mut k: usize = 0;
        while k < n
            invariant
                n == data@.len(),
                offset + n <= PUSH_CONSTANT_SIZE,
                k <= n,
                self.push_constant_data@.len() == PUSH_CONSTANT_SIZE,
                forall|i: int| 0 <= i < offset ==> #[trigger] self.push_constant_data@[i] == before[i],
                forall|i: int| 0 <= i < k ==> #[trigger] self.push_constant_data@[offset + i] == data@[i],
                forall|i: int| offset + k <= i < PUSH_CONSTANT_SIZE ==> #[trigger] self.push_constant_data@[i] == before[i],
                before.len() == PUSH_CONSTANT_SIZE,
                self.bindless_set_id == old(self).bindless_set_id,
                self.bindless_set == old(self).bindless_set,
                self.sets@ == old(self).sets@,
                self.dirty_sets == old(self).dirty_sets,
                self.push_constant_update_range == old(self).push_constant_update_range,
                before == old(self).push_constant_data@,
            decreases n - k,
        {
            self.push_constant_data.set(offset + k, data[k]);
            k = k + 1;
        }
        self.push_constant_update_range = Some((offset, n));
        proof {
            let expected = before.subrange(0, offset as int) + data@ + before.subrange(
                offset + n,
                PUSH_CONSTANT_SIZE as int,
            );
            assert forall|i: int| 0 <= i < PUSH_CONSTANT_SIZE implies self.push_constant_data@[i] == expected[i] by {
                if offset <= i < offset + n {
                    assert(self.push_constant_data@[offset + (i - offset)] == data@[i - offset]);
                }
            }
            assert(self.push_constant_data@ =~= expected);
        }
    }

    /// Unbinds every descriptor set, the bindless one too.
    pub fn reset(&mut self)
        requires
            old(self).wf(),
        ensures
            final(self).wf(),
            final(self).set_states().len() == MAX_DESCRIPTOR_SETS,
            forall|i: int| 0 <= i < MAX_DESCRIPTOR_SETS ==> set_cleared(old(self).set_states()[i], #[trigger] final(self).set_states()[i]),
            final(self).bindless_set_view() == 0,
            final(self).dirty() == old(self).dirty(),
            final(self).bindless_set_id_view() == old(self).bindless_set_id_view(),
            final(self).push_data() == old(self).push_data(),
            final(self).update_range() == old(self).update_range(),
    {
        let ghost before = self.sets@;
        let mut i: usize = 0;
        while i < MAX_DESCRIPTOR_SETS
            invariant
                i <= MAX_DESCRIPTOR_SETS,
                self.sets@.len() == MAX_DESCRIPTOR_SETS,
                before == old(self).sets@,
                before.len() == MAX_DESCRIPTOR_SETS,
                forall|k: int| 0 <= k < i ==> set_cleared(before[k], #[trigger] self.sets@[k]),
                forall|k: int| i <= k < MAX_DESCRIPTOR_SETS ==> #[trigger] self.sets@[k] == before[k],
                forall|k: int| 0 <= k < MAX_DESCRIPTOR_SETS ==> #[trigger] before[k].wf(),
                self.bindless_set_id == old(self).bindless_set_id,
                self.bindless_set == old(self).bindless_set,
                self.push_constant_data@ == old(self).push_constant_data@,
                self.dirty_sets == old(self).dirty_sets,
                self.push_constant_update_range == old(self).push_constant_update_range,
            decreases MAX_DESCRIPTOR_SETS - i,
        {
            let mut state = DescriptorSetState::default();
            std::mem::swap(&mut state, &mut self.sets[i]);
            assert(state == before[i as int]);
            state.reset();
            self.sets.set(i, state);
            i = i + 1;
        }
        self.bindless_set = 0;
        assert forall|k: int| 0 <= k < MAX_DESCRIPTOR_SETS implies #[trigger] self.sets@[k].wf() by {
            assert(set_cleared(before[k], self.sets@[k]));
        }
    }

    /// Marks every descriptor set dirty.
    pub fn set_all_dirty(&mut self)
        requires
            old(self).wf(),
        ensures
            final(self).wf(),
            final(self).dirty() == ALL_SETS_MASK,
            final(self).set_states() == old(self).set_states(),
            final(self).bindless_set_id_view() == old(self).bindless_set_id_view(),
            final(self).bindless_set_view() == old(self).bindless_set_view(),
            final(self).push_data() == old(self).push_data(),
            final(self).update_range() == old(self).update_range(),
    {
        assert(0xfu32 & 0xfu32 == 0xfu32) by (bit_vector);
        self.dirty_sets = ALL_SETS_MASK;
    }

    /// Before a draw or dispatch with a shader whose pipeline layout uses the
    /// sets in `pipeline_sets`: which of the dirty sets to bind (the bindless
    /// one apart), and which push-constant bytes to push. Afterwards nothing
    /// is dirty and no push-constant bytes are pending.
    pub fn flush(&mut self, pipeline_sets: u32) -> (plan: FlushPlan)
        requires
            old(self).wf(),
        ensures
            final(self).wf(),
            plan.bindless_set == (if (old(self).dirty() & pipeline_sets) >> old(self).bindless_set_id_view() & 1u32 == 1u32 {
                Some(old(self).bindless_set_view())
            } else {
                None
            }),
            plan.sets@ == set_bits_between(
                old(self).dirty() & pipeline_sets & !(1u32 << old(self).bindless_set_id_view()),
                0,
                32,
            ),
            plan.push_constant_range == old(self).update_range(),
            final(self).dirty() == 0,
            final(self).update_range() is None,
            final(self).set_states() == old(self).set_states(),
            final(self).bindless_set_id_view() == old(self).bindless_set_id_view(),
            final(self).bindless_set_view() == old(self).bindless_set_view(),
            final(self).push_data() == old(self).push_data(),
    {
        let mut sets_to_update = self.dirty_sets & pipeline_sets;
        let id = self.bindless_set_id;
        let bindless_set = if (sets_to_update >> id) & 1 == 1 {
            let s = sets_to_update;
            assert((s >> id) & 1u32 == 1u32 && id < 32 ==> s ^ (1u32 << id) == s & !(1u32 << id)) by (bit_vector);
            sets_to_update = sets_to_update ^ (1u32 << id);
            Some(self.bindless_set)
        } else {
            let s = sets_to_update;
            assert((s >> id) & 1u32 != 1u32 && id < 32 ==> s == s & !(1u32 << id)) by (bit_vector);
            None
        };
        let sets = for_each_bit(sets_to_update);
        let push_constant_range = self.push_constant_update_range;
        self.push_constant_update_range = None;
        self.dirty_sets = 0;
        assert(0u32 & 0xfu32 == 0u32) by (bit_vector);
        FlushPlan { bindless_set, sets, push_constant_range }
    }

    /// The sets changed since they were last bound, one bit each.
    pub fn dirty_sets(&self) -> (d: u32)
        ensures
            d == self.dirty(),
    {
        self.dirty_sets
    }

    /// The bindless descriptor set bound (0 for none).
    pub fn bindless_set(&self) -> (s: u64)
        ensures
            s == self.bindless_set_view(),
    {
        self.bindless_set
    }

    /// The push-constant bytes.
    pub fn push_constant_data(&self) -> (d: &[u8])
        ensures
            d@ == self.push_data(),
    {
        self.push_constant_data.as_slice()
    }

    /// What is bound in set `set`.
    pub fn set_state(&self, set: u32) -> (s: &DescriptorSetState)
        requires
            self.wf(),
            set < MAX_DESCRIPTOR_SETS,
        ensures
            *s == self.set_states()[set as int],
    {
        &self.sets[set as usize]
    }
}

/// A flush leaves nothing dirty, and with nothing dirty a flush binds
/// neither the bindless set nor any other set, whatever the shader uses.
pub proof fn law_nothing_dirty_binds_nothing(s: DescriptorState, pipeline_sets: u32)
    requires
        s.wf(),
        s.dirty() == 0,
    ensures
        (s.dirty() & pipeline_sets) >> s.bindless_set_id_view() & 1u32 != 1u32,
        set_bits_between(s.dirty() & pipeline_sets & !(1u32 << s.bindless_set_id_view()), 0, 32)
            == Seq::<u32>::empty(),
{
    let id = s.bindless_set_id_view();
    assert(0u32 & pipeline_sets & !(1u32 << id) == 0u32) by (bit_vector);
    assert((0u32 & pipeline_sets) >> id & 1u32 == 0u32) by (bit_vector);
    lemma_no_bits(0, 32);
}

/// A mask without bits has no set bits below `n`.
proof fn lemma_no_bits(mask: u32, n: int)
    requires
        mask == 0,
        n <= 32,
    ensures
        set_bits_between(mask, 0, n) == Seq::<u32>::empty(),
    decreases n,
{
    if n > 0 {
        lemma_no_bits(mask, n - 1);
        let i = (n - 1) as u32;
        assert((0u32 >> i) & 1u32 == 0u32) by (bit_vector);
    }
}

} // verus!
