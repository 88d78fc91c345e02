//! State kept while recording commands: which shader is bound and whether
//! the pipeline has to be bound again, the pipelines built so far, and the
//! descriptor sets and push constants to bind. A shader is known here by the
//! hash of its compiled code, which is all that these decisions read of it.
use vstd::prelude::*;

pub mod compute;
pub mod descriptor_state;
pub mod pipeline_lookup;
pub mod render;

verus! {

/// What recording knows of a shader: the hash of its compiled code and
/// the handles of its descriptor-set layouts, one per set.
#[derive(Clone, Copy, Debug)]
pub struct ShaderKey {
    pub hash: u64,
    pub set_layouts: [u64; 4],
}

/// The sets from `k` on: every bit at `k` and above.
pub open spec fn sets_from(k: int) -> u32 {
    !(((1u32 << (k as u32)) - 1u32) as u32)
}

/// The first set, from `j` on, whose layout differs between `a` and `b`.
pub open spec fn first_layout_change_from(a: Seq<u64>, b: Seq<u64>, j: int) -> Option<int>
    decreases 4 - j,
{
    if j < 0 || j >= 4 {
        None
    } else if a[j] != b[j] {
        Some(j)
    } else {
        first_layout_change_from(a, b, j + 1)
    }
}

/// The dirty sets after a switch from a shader with set layouts `a` to one
/// with set layouts `b`: by the pipeline-layout compatibility rules, every
/// set from the first one whose layout differs on must be bound again.
pub open spec fn dirty_after_switch(dirty: u32, a: Seq<u64>, b: Seq<u64>) -> u32 {
    match first_layout_change_from(a, b, 0) {
        Some(k) => dirty | sets_from(k),
        None => dirty,
    }
}

/// Binds the shader `new` in `current` and tells whether the pipeline must
/// be bound again: it need not be only when the shader already bound has the
/// same hash. When a different shader was bound, the descriptor sets from
/// the first one whose layout differs on are marked dirty, as the Vulkan
/// pipeline-layout compatibility rules ask.
pub fn update_shader(current: &mut Option<ShaderKey>, new: ShaderKey, dirty_sets: &mut u32) -> (pipeline_dirty: bool)
    ensures
        *final(current) == Some(new),
        pipeline_dirty == !(*old(current) matches Some(s) && s.hash == new.hash),
        *final(dirty_sets) == (match *old(current) {
            Some(s) => if s.hash == new.hash {
                *old(dirty_sets)
            } else {
                dirty_after_switch(*old(dirty_sets), s.set_layouts@, new.set_layouts@)
            },
            None => *old(dirty_sets),
        }),
{
    let previous = *current;
    *current = Some(new);
    match previous {
        Some(old_shader) => {
            if old_shader.hash == new.hash {
                return false;
            }
            let ghost d0 = *dirty_sets;
            let ghost mut found: Option<int> = None;
            let mut set: usize = 0;
            while set < 4
                invariant
                    set <= 4,
                    match found {
                        Some(k) => 0 <= k < set && *dirty_sets == d0 | sets_from(k)
                            && first_layout_change_from(old_shader.set_layouts@, new.set_layouts@, 0) == Some(k),
                        None => *dirty_sets == d0 && first_layout_change_from(old_shader.set_layouts@, new.set_layouts@, 0)
                            == first_layout_change_from(old_shader.set_layouts@, new.set_layouts@, set as int),
                    },
                decreases 4 - set,
            {
                if old_shader.set_layouts[set] != new.set_layouts[set] {
                    let s32 = set as u32;
                    let d = *dirty_sets;
                    proof {
                        assert(forall|x: u32, k: u32, t: u32|
                            k < t && t < 4 ==> #[trigger] ((x | !(((1u32 << k) - 1u32) as u32)) | !(((1u32 << t) - 1u32) as u32))
                                == (x | !(((1u32 << k) - 1u32) as u32))) by (bit_vector);
                        match found {
                            Some(k) => {
                                let k32 = k as u32;
                                assert(k32 < s32);
                                assert(d == d0 | sets_from(k));
                                assert((d0 | !(((1u32 << k32) - 1u32) as u32)) | !(((1u32 << s32) - 1u32) as u32)
                                    == (d0 | !(((1u32 << k32) - 1u32) as u32)));
                            },
                            None => {
                                found = Some(set as int);
                            },
                        }
                    }
                    assert(s32 < 4 ==> 1u32 << s32 >= 1u32) by (bit_vector);
                    *dirty_sets = d | !((1u32 << s32) - 1);
                }
                set = set + 1;
            }
            true
        },
        None => true,
    }
}

/// A shader switch never clears a dirty set, and marks dirty every set from
/// the first one whose layout changed up to the last descriptor set.
pub proof fn law_switch_dirties_changed_sets(dirty: u32, a: Seq<u64>, b: Seq<u64>, k: int, j: u32)
    requires
        first_layout_change_from(a, b, 0) == Some(k),
        k <= j < 4,
    ensures
        dirty_after_switch(dirty, a, b) & dirty == dirty,
        (dirty_after_switch(dirty, a, b) >> j) & 1u32 == 1u32,
{
    lemma_first_change_in_range(a, b, 0);
    let k32 = k as u32;
    assert(k32 <= j && j < 4 ==> ((dirty | !(((1u32 << k32) - 1u32) as u32)) & dirty) == dirty && ((dirty | !(((1u32
        << k32) - 1u32) as u32)) >> j) & 1u32 == 1u32) by (bit_vector);
}

/// A first layout change found from `j` on lies in `j..4`.
proof fn lemma_first_change_in_range(a: Seq<u64>, b: Seq<u64>, j: int)
    requires
        0 <= j,
    ensures
        first_layout_change_from(a, b, j) matches Some(k) ==> j <= k < 4,
    decreases 4 - j,
{
    if j < 4 {
        lemma_first_change_in_range(a, b, j + 1);
    }
}

} // verus!
