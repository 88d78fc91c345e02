//! Bit-mask helpers used when walking descriptor-set masks, and the
//! work-group count of a compute dispatch.
use vstd::prelude::*;
use std::ops::Range;

verus! {

/// Whether bit `i` of `mask` is set.
pub open spec fn bit_set(mask: u32, i: u32) -> bool {
    (mask >> i) & 1u32 == 1u32
}

/// The indices `i` with `lo <= i < hi` whose bit is set in `mask`, ascending.
pub open spec fn set_bits_between(mask: u32, lo: int, hi: int) -> Seq<u32>
    decreases hi - lo,
{
    if hi <= lo {
        Seq::empty()
    } else {
        let rest = set_bits_between(mask, lo, hi - 1);
        if bit_set(mask, (hi - 1) as u32) {
            rest.push((hi - 1) as u32)
        } else {
            rest
        }
    }
}

/// The indices `set_bits_between` lists lie in the range and have their bit set.
pub proof fn lemma_set_bits_in_range(mask: u32, lo: int, hi: int)
    requires
        0 <= lo,
        hi <= 32,
    ensures
        forall|j: int|
            0 <= j < set_bits_between(mask, lo, hi).len() ==> lo <= #[trigger] set_bits_between(mask, lo, hi)[j] < hi
                && bit_set(mask, set_bits_between(mask, lo, hi)[j]),
    decreases hi - lo,
{
    if hi > lo {
        lemma_set_bits_in_range(mask, lo, hi - 1);
        let rest = set_bits_between(mask, lo, hi - 1);
        let all = set_bits_between(mask, lo, hi);
        assert forall|j: int| 0 <= j < all.len() implies lo <= #[trigger] all[j] < hi && bit_set(mask, all[j]) by {
            if j < rest.len() {
                assert(all[j] == rest[j]);
            }
        }
    }
}

/// The number of work groups for `num_elements` items at `n_threads` per group:
/// the quotient, plus one more group when the remainder exceeds one.
pub open spec fn workgroup_count(num_elements: u32, n_threads: u32) -> int {
    let q = num_elements / n_threads;
    if num_elements % n_threads > 1 {
        q + 1
    } else {
        q as int
    }
}

/// The indices in `range` whose bit is set in `mask`, in ascending order.
pub fn for_each_bit_in_range(mask: u32, range: Range<usize>) -> (found: Vec<u32>)
    requires
        range.start < range.end ==> range.end <= 32,
    ensures
        found@ == set_bits_between(mask, range.start as int, range.end as int),
{
    let mut found: Vec<u32> = Vec::new();
    let mut i: usize = range.start;
    if range.end <= range.start {
        return found;
    }
    while i < range.end
        invariant
            range.start <= i <= range.end,
            range.end <= 32,
            found@ == set_bits_between(mask, range.start as int, i as int),
        decreases range.end - i,
    {
        let value = (mask >> (i as u32)) & 1;
        if value == 1 {
            found.push(i as u32);
        }
        i = i + 1;
    }
    found
}

/// `u32::wrapping_neg`: two's-complement negation, wrapping at the type's bounds.
pub assume_specification[ u32::wrapping_neg ](x: u32) -> (r: u32)
    ensures
        r as int == (0 - x as int) % 0x1_0000_0000,
;

proof fn lemma_lowest_bit_step(mask: u32, neg: u32, tz: u32)
    requires
        mask != 0,
        neg as int == (0 - mask as int) % 0x1_0000_0000,
        tz < 32,
        (mask >> tz) & 1u32 == 1u32,
        mask << ((32 - tz) as u32) == 0u32,
    ensures
        forall|j: u32|
            j < 32 ==> #[trigger] ((mask ^ (mask & neg)) >> j) & 1u32 == (if j == tz {
                0u32
            } else {
                (mask >> j) & 1u32
            }),
{
    assert(neg == ((!mask) as int + 1) as u32) by (bit_vector)
        requires
            mask != 0,
            neg as int == (0 - mask as int) % 0x1_0000_0000,
    ;
    assert forall|j: u32| j < 32 implies #[trigger] ((mask ^ (mask & neg)) >> j) & 1u32 == (if j
        == tz {
        0u32
    } else {
        (mask >> j) & 1u32
    }) by {
        assert(tz < 32 && j < 32 && (mask >> tz) & 1u32 == 1u32 && mask << ((32 - tz) as u32)
            == 0u32 && neg == ((!mask) as int + 1) as u32 ==> ((mask ^ (mask & neg)) >> j) & 1u32
            == (if j == tz {
            0u32
        } else {
            (mask >> j) & 1u32
        })) by (bit_vector);
    }
}

proof fn lemma_no_bits_between(mask: u32, lo: int, k: int, t: int)
    requires
        0 <= lo <= k <= t <= 32,
        forall|j: u32| k <= j < t ==> !#[trigger] bit_set(mask, j),
    ensures
        set_bits_between(mask, lo, t) == set_bits_between(mask, lo, k),
    decreases t - k,
{
    if t > k {
        assert(!bit_set(mask, (t - 1) as u32));
        lemma_no_bits_between(mask, lo, k, t - 1);
    }
}

/// The indices of the set bits of `mask`, lowest first, found by isolating
/// and clearing the lowest set bit in turn.
pub fn for_each_bit(mask: u32) -> (found: Vec<u32>)
    ensures
        found@ == set_bits_between(mask, 0, 32),
{
    broadcast use vstd::std_specs::bits::axiom_u32_trailing_zeros;

    let ghost orig = mask;
    let ghost mut k: int = 0;
    let mut mask = mask;
    let mut found: Vec<u32> = Vec::new();
    while mask != 0
        invariant
            0 <= k <= 32,
            found@ == set_bits_between(orig, 0, k),
            forall|j: u32|
                j < 32 ==> #[trigger] (mask >> j) & 1u32 == (if j < k {
                    0u32
                } else {
                    (orig >> j) & 1u32
                }),
        decreases 32 - k,
    {
        let neg = mask.wrapping_neg();
        let t = mask & neg;
        let tz = mask.trailing_zeros();
        proof {
            assert(tz < 32);
            assert forall|j: u32| k <= j < tz implies !#[trigger] bit_set(orig, j) by {
                assert((mask >> j) & 1u32 == 0u32);
            }
            if tz < k {
                assert((mask >> tz) & 1u32 == 0u32);
            }
            lemma_no_bits_between(orig, 0, k, tz as int);
            assert((mask >> tz) & 1u32 == 1u32);
            assert(bit_set(orig, tz));
            lemma_lowest_bit_step(mask, neg, tz);
        }
        found.push(tz);
        let ghost old_mask = mask;
        let ghost old_neg = neg;
        mask ^= t;
        proof {
            k = tz + 1;
            assert forall|j: u32| j < 32 implies #[trigger] (mask >> j) & 1u32 == (if j < k {
                0u32
            } else {
                (orig >> j) & 1u32
            }) by {
                assert(((old_mask ^ (old_mask & old_neg)) >> j) & 1u32 == (if j == tz {
                    0u32
                } else {
                    (old_mask >> j) & 1u32
                }));
            }
        }
    }
    proof {
        assert forall|j: u32| k <= j < 32 implies !#[trigger] bit_set(orig, j) by {
            assert((mask >> j) & 1u32 == 0u32) by (bit_vector)
                requires
                    mask == 0u32,
            ;
        }
        lemma_no_bits_between(orig, 0, k, 32);
    }
    found
}

/// The number of work groups needed to cover `num_elements` with groups of `n_threads`.
pub fn n_workgroups(num_elements: u32, n_threads: u32) -> (n: u32)
    requires
        n_threads > 0,
    ensures
        n == workgroup_count(num_elements, n_threads),
{
    let mut n_workgroups = num_elements / n_threads;
    if num_elements % n_threads > 1 {
        assert(n_workgroups < num_elements) by (nonlinear_arith)
            requires
                n_workgroups == num_elements / n_threads,
                num_elements % n_threads > 1,
                n_threads > 0,
        ;
        n_workgroups += 1;
    }
    n_workgroups
}

} // verus!
