//! Render-graph checks and planning: the validation a graph goes through
//! before it is built, and the image barriers that its passes need between
//! one another.
use vstd::prelude::*;
use crate::barrier::{AccessType, hazard, is_hazard};

verus! {

/// Why a render graph could not be built.
#[derive(Debug, PartialEq, Eq)]
pub enum GraphCreationError {
    /// Two passes share this name.
    DuplicatePassName(String),
    /// A pass other than the last one presents to the swapchain.
    LastPassPresentOnly,
    /// Allocating a graph resource failed, with the allocator's message.
    AllocationFailed(String),
}

/// What an attachment of a render pass holds.
#[derive(Clone, Copy, Debug, Hash, PartialEq, Eq, Structural)]
pub enum AttachmentKind {
    /// A colour attachment bound at the given location.
    Color(u32),
    DepthStencil,
    DepthOnly,
}

/// Pass `j` repeats the name of an earlier pass.
pub open spec fn repeats_earlier_name(names: Seq<String>, j: int) -> bool {
    exists|i: int| 0 <= i < j && names[i]@ == names[j]@
}

/// Pass `j` is the first pass that repeats an earlier name.
pub open spec fn first_repeated_name(names: Seq<String>, j: int) -> bool {
    &&& 0 <= j < names.len()
    &&& repeats_earlier_name(names, j)
    &&& forall|m: int| 0 <= m < j ==> !repeats_earlier_name(names, m)
}

/// Fails with the name of the first pass whose name an earlier pass already
/// has; succeeds when all names differ.
pub fn check_duplicate_pass_names(pass_names: &[String]) -> (r: Result<(), GraphCreationError>)
    ensures
        r is Ok <==> forall|j: int| 0 <= j < pass_names@.len() ==> !repeats_earlier_name(pass_names@, j),
        r matches Err(e) ==> (e matches GraphCreationError::DuplicatePassName(name)
            && exists|j: int| first_repeated_name(pass_names@, j) && name@ == pass_names@[j]@),
{
    let mut j: usize = 0;
    while j < pass_names.len()
        invariant
            j <= pass_names@.len(),
            forall|m: int| 0 <= m < j ==> !repeats_earlier_name(pass_names@, m),
        decreases pass_names@.len() - j,
    {
        let mut i: usize = 0;
        while i < j
            invariant
                i <= j < pass_names@.len(),
                forall|m: int| 0 <= m < j ==> !repeats_earlier_name(pass_names@, m),
                forall|m: int| 0 <= m < i ==> pass_names@[m]@ != pass_names@[j as int]@,
            decreases j - i,
        {
            if pass_names[i] == pass_names[j] {
                assert(repeats_earlier_name(pass_names@, j as int));
                assert(first_repeated_name(pass_names@, j as int));
                return Err(GraphCreationError::DuplicatePassName(pass_names[j].clone()));
            }
            i = i + 1;
        }
        j = j + 1;
    }
    Ok(())
}

/// Fails unless the first pass that presents to the swapchain, if any, is the
/// last pass.
pub fn check_only_last_pass_presents_to_swapchain(presents: &[bool]) -> (r: Result<(), GraphCreationError>)
    requires
        presents@.len() > 0,
    ensures
        r is Ok <==> forall|i: int| 0 <= i < presents@.len() - 1 ==> !presents@[i],
        r matches Err(e) ==> e == GraphCreationError::LastPassPresentOnly,
{
    let last_pass_ix = presents.len() - 1;
    let mut present_pass_ix = last_pass_ix;
    let mut i: usize = 0;
    while i < presents.len()
        invariant_except_break
            present_pass_ix == last_pass_ix,
        invariant
            i <= presents@.len(),
            last_pass_ix == presents@.len() - 1,
            forall|m: int| 0 <= m < i ==> !presents@[m],
        ensures
            i <= presents@.len(),
            forall|m: int| 0 <= m < i ==> !presents@[m],
            i < presents@.len() ==> presents@[i as int] && present_pass_ix == i,
            i == presents@.len() ==> present_pass_ix == last_pass_ix,
        decreases presents@.len() - i,
    {
        if presents[i] {
            present_pass_ix = i;
            break;
        }
        i = i + 1;
    }
    if present_pass_ix != last_pass_ix {
        Err(GraphCreationError::LastPassPresentOnly)
    } else {
        Ok(())
    }
}

/// Both checks a graph goes through before it is built, names first.
pub fn validate(pass_names: &[String], presents: &[bool]) -> (r: Result<(), GraphCreationError>)
    requires
        presents@.len() > 0,
    ensures
        r is Ok <==> (forall|j: int| 0 <= j < pass_names@.len() ==> !repeats_earlier_name(pass_names@, j))
            && (forall|i: int| 0 <= i < presents@.len() - 1 ==> !presents@[i]),
        r matches Err(GraphCreationError::LastPassPresentOnly) ==> forall|j: int|
            0 <= j < pass_names@.len() ==> !repeats_earlier_name(pass_names@, j),
        r matches Err(e) ==> (e is LastPassPresentOnly || (e matches GraphCreationError::DuplicatePassName(name)
            && exists|j: int| first_repeated_name(pass_names@, j) && name@ == pass_names@[j]@)),
{
    match check_duplicate_pass_names(pass_names) {
        Ok(()) => {},
        Err(e) => return Err(e),
    }
    check_only_last_pass_presents_to_swapchain(presents)
}

/// Whether any pass presents to the swapchain.
pub fn outputs_swapchain(presents: &[bool]) -> (r: bool)
    ensures
        r == exists|i: int| 0 <= i < presents@.len() && presents@[i],
{
    let mut i: usize = 0;
    while i < presents.len()
        invariant
            i <= presents@.len(),
            forall|m: int| 0 <= m < i ==> !presents@[m],
        decreases presents@.len() - i,
    {
        if presents[i] {
            return true;
        }
        i = i + 1;
    }
    false
}

/// The accesses that `pass` makes to image `image`, in order.
pub open spec fn accesses_of(pass: Seq<(usize, AccessType)>, image: usize) -> Seq<AccessType>
    decreases pass.len(),
{
    if pass.len() == 0 {
        Seq::empty()
    } else {
        let rest = accesses_of(pass.drop_last(), image);
        if pass.last().0 == image {
            rest.push(pass.last().1)
        } else {
            rest
        }
    }
}

/// The images that `pass` uses, each once, in the order of their first use.
pub open spec fn touched_images(pass: Seq<(usize, AccessType)>) -> Seq<usize>
    decreases pass.len(),
{
    if pass.len() == 0 {
        Seq::empty()
    } else {
        let rest = touched_images(pass.drop_last());
        if rest.contains(pass.last().0) {
            rest
        } else {
            rest.push(pass.last().0)
        }
    }
}

/// The accesses of the last pass before pass `k` that used `image`; empty
/// where no earlier pass used it.
pub open spec fn previous_accesses(passes: Seq<Vec<(usize, AccessType)>>, k: nat, image: usize) -> Seq<
    AccessType,
>
    decreases k,
{
    if k == 0 {
        Seq::empty()
    } else {
        let here = accesses_of(passes[k - 1]@, image);
        if here.len() > 0 {
            here
        } else {
            previous_accesses(passes, (k - 1) as nat, image)
        }
    }
}

/// The transitions that pass `k` needs for `images`, in their order: one for
/// each image whose use in pass `k` is a hazard after its previous use.
pub open spec fn transitions_for(passes: Seq<Vec<(usize, AccessType)>>, k: nat, images: Seq<usize>) -> Seq<
    (usize, Seq<AccessType>, Seq<AccessType>),
>
    decreases images.len(),
{
    if images.len() == 0 {
        Seq::empty()
    } else {
        let rest = transitions_for(passes, k, images.drop_last());
        let image = images.last();
        let prev = previous_accesses(passes, k, image);
        let next = accesses_of(passes[k as int]@, image);
        if hazard(prev, next) {
            rest.push((image, prev, next))
        } else {
            rest
        }
    }
}

/// The transitions pass `k` needs, for the images it uses in the order of
/// their first use.
pub open spec fn pass_transitions(passes: Seq<Vec<(usize, AccessType)>>, k: nat) -> Seq<
    (usize, Seq<AccessType>, Seq<AccessType>),
> {
    transitions_for(passes, k, touched_images(passes[k as int]@))
}

/// A barrier that one image needs before a pass: its accesses in the last
/// pass that used it and its accesses in this pass.
#[derive(Debug)]
pub struct ImageTransition {
    pub image: usize,
    pub previous: Vec<AccessType>,
    pub next: Vec<AccessType>,
}

impl View for ImageTransition {
    type V = (usize, Seq<AccessType>, Seq<AccessType>);

    open spec fn view(&self) -> (usize, Seq<AccessType>, Seq<AccessType>) {
        (self.image, self.previous@, self.next@)
    }
}

/// The views of a list of transitions.
pub open spec fn transitions_view(ts: Seq<ImageTransition>) -> Seq<(usize, Seq<AccessType>, Seq<AccessType>)> {
    ts.map_values(|t: ImageTransition| t@)
}

proof fn lemma_touched_iff_used(pass: Seq<(usize, AccessType)>, image: usize)
    ensures
        touched_images(pass).contains(image) <==> accesses_of(pass, image).len() > 0,
        touched_images(pass).no_duplicates(),
    decreases pass.len(),
{
    if pass.len() > 0 {
        lemma_touched_iff_used(pass.drop_last(), image);
        lemma_touched_iff_used(pass.drop_last(), pass.last().0);
        let rest = touched_images(pass.drop_last());
        if !rest.contains(pass.last().0) {
            let t = rest.push(pass.last().0);
            assert forall|a: int, b: int| 0 <= a < b < t.len() implies t[a] != t[b] by {
                if b == rest.len() {
                    assert(rest.contains(rest[a]));
                }
            }
            if image != pass.last().0 {
                assert(t.contains(image) <==> rest.contains(image)) by {
                    if t.contains(image) {
                        let i = choose|i: int| 0 <= i < t.len() && t[i] == image;
                        assert(rest[i] == image);
                    }
                    if rest.contains(image) {
                        let i = choose|i: int| 0 <= i < rest.len() && rest[i] == image;
                        assert(t[i] == image);
                    }
                }
            }
            assert(t[t.len() - 1] == pass.last().0);
        }
    }
}

fn copy_accesses(v: &Vec<AccessType>) -> (c: Vec<AccessType>)
    ensures
        c@ == v@,
{
    let mut c: Vec<AccessType> = Vec::new();
    let mut i: usize = 0;
    while i < v.len()
        invariant
            i <= v@.len(),
            c@ == v@.take(i as int),
        decreases v@.len() - i,
    {
        c.push(v[i]);
        i = i + 1;
    }
    c
}

/// Groups the accesses of one pass by image, images in the order of their
/// first use.
fn group_accesses(pass: &Vec<(usize, AccessType)>) -> (groups: Vec<(usize, Vec<AccessType>)>)
    ensures
        groups@.len() == touched_images(pass@).len(),
        forall|j: int|
            0 <= j < groups@.len() ==> #[trigger] groups@[j].0 == touched_images(pass@)[j] && groups@[j].1@
                == accesses_of(pass@, groups@[j].0),
{
    let mut groups: Vec<(usize, Vec<AccessType>)> = Vec::new();
    let mut i: usize = 0;
    while i < pass.len()
        invariant
            i <= pass@.len(),
            groups@.len() == touched_images(pass@.take(i as int)).len(),
            forall|j: int|
                0 <= j < groups@.len() ==> #[trigger] groups@[j].0 == touched_images(pass@.take(i as int))[j]
                    && groups@[j].1@ == accesses_of(pass@.take(i as int), groups@[j].0),
        decreases pass@.len() - i,
    {
        let (image, access) = pass[i];
        let ghost before = pass@.take(i as int);
        let ghost after = pass@.take(i + 1);
        proof {
            assert(after.drop_last() == before);
            assert(after.last() == (image, access));
            lemma_touched_iff_used(before, image);
        }
        let mut j: usize = 0;
        while j < groups.len()
            invariant
                j <= groups@.len(),
                forall|m: int| 0 <= m < j ==> groups@[m].0 != image,
            ensures
                j <= groups@.len(),
                forall|m: int| 0 <= m < j ==> groups@[m].0 != image,
                j < groups@.len() ==> groups@[j as int].0 == image,
            decreases groups@.len() - j,
        {
            if groups[j].0 == image {
                break;
            }
            j = j + 1;
        }
        let ghost old_groups = groups@;
        if j < groups.len() {
            let mut entry = (0usize, Vec::new());
            std::mem::swap(&mut entry, &mut groups[j]);
            entry.1.push(access);
            groups.set(j, entry);
            proof {
                assert(touched_images(before).contains(image)) by {
                    assert(touched_images(before)[j as int] == image);
                }
                assert forall|m: int| 0 <= m < groups@.len() implies #[trigger] groups@[m].0 == touched_images(
                    after,
                )[m] && groups@[m].1@ == accesses_of(after, groups@[m].0) by {
                    if m != j {
                        assert(groups@[m] == old_groups[m]);
                    }
                }
            }
        } else {
            let mut single: Vec<AccessType> = Vec::new();
            single.push(access);
            groups.push((image, single));
            proof {
                assert(!touched_images(before).contains(image)) by {
                    if touched_images(before).contains(image) {
                        let m = choose|m: int|
                            0 <= m < touched_images(before).len() && touched_images(before)[m] == image;
                        assert(old_groups[m].0 == image);
                    }
                }
                assert(accesses_of(before, image).len() == 0);
                assert(accesses_of(before, image) =~= Seq::<AccessType>::empty());
                assert forall|m: int| 0 <= m < groups@.len() implies #[trigger] groups@[m].0 == touched_images(
                    after,
                )[m] && groups@[m].1@ == accesses_of(after, groups@[m].0) by {
                    if m < old_groups.len() {
                        assert(groups@[m] == old_groups[m]);
                        assert(old_groups[m].0 != image) by {
                            lemma_touched_iff_used(before, old_groups[m].0);
                        }
                    } else {
                        assert(groups@[m].1@ =~= seq![access]);
                    }
                }
            }
        }
        i = i + 1;
    }
    assert(pass@.take(pass@.len() as int) == pass@);
    groups
}

/// For every pass in order, the image barriers it needs: an image used by a
/// pass gets a transition where its accesses there and its accesses in the
/// last pass that used it form a hazard. Each pass lists the images it
/// uses, by index, with the access of each use, reads before writes.
pub fn plan_image_barriers(passes: &Vec<Vec<(usize, AccessType)>>, image_count: usize) -> (plan: Vec<
    Vec<ImageTransition>,
>)
    requires
        forall|k: int, i: int|
            0 <= k < passes@.len() && 0 <= i < passes@[k]@.len() ==> #[trigger] passes@[k]@[i].0 < image_count,
    ensures
        plan@.len() == passes@.len(),
        forall|k: int| 0 <= k < plan@.len() ==> transitions_view(#[trigger] plan@[k]@) == pass_transitions(passes@, k as nat),
{
    let mut latest: Vec<Vec<AccessType>> = Vec::new();
    while latest.len() < image_count
        invariant
            latest@.len() <= image_count,
            forall|img: int| 0 <= img < latest@.len() ==> (#[trigger] latest@[img])@ == Seq::<AccessType>::empty(),
        decreases image_count - latest@.len(),
    {
        latest.push(Vec::new());
    }
    let mut plan: Vec<Vec<ImageTransition>> = Vec::new();
    let mut k: usize = 0;
    while k < passes.len()
        invariant
            k <= passes@.len(),
            plan@.len() == k,
            latest@.len() == image_count,
            forall|k2: int, i: int|
                0 <= k2 < passes@.len() && 0 <= i < passes@[k2]@.len() ==> #[trigger] passes@[k2]@[i].0 < image_count,
            forall|img: int|
                0 <= img < image_count ==> (#[trigger] latest@[img])@ == previous_accesses(passes@, k as nat, img as usize),
            forall|m: int| 0 <= m < k ==> transitions_view(#[trigger] plan@[m]@) == pass_transitions(passes@, m as nat),
        decreases passes@.len() - k,
    {
        let pass = &passes[k];
        let groups = group_accesses(pass);
        let ghost touched = touched_images(pass@);
        proof {
            lemma_touched_iff_used(pass@, 0);
        }
        let mut out: Vec<ImageTransition> = Vec::new();
        let mut g: usize = 0;
        while g < groups.len()
            invariant
                g <= groups@.len(),
                pass@ == passes@[k as int]@,
                touched == touched_images(pass@),
                touched.no_duplicates(),
                groups@.len() == touched.len(),
                forall|j: int|
                    0 <= j < groups@.len() ==> #[trigger] groups@[j].0 == touched[j] && groups@[j].1@ == accesses_of(
                        pass@,
                        groups@[j].0,
                    ),
                latest@.len() == image_count,
                forall|i: int| 0 <= i < pass@.len() ==> #[trigger] pass@[i].0 < image_count,
                forall|img: int|
                    0 <= img < image_count ==> (#[trigger] latest@[img])@ == (if touched.take(g as int).contains(
                        img as usize,
                    ) {
                        accesses_of(pass@, img as usize)
                    } else {
                        previous_accesses(passes@, k as nat, img as usize)
                    }),
                transitions_view(out@) == transitions_for(passes@, k as nat, touched.take(g as int)),
            decreases groups@.len() - g,
        {
            let image = groups[g].0;
            proof {
                lemma_touched_iff_used(pass@, image);
                assert(touched.contains(image)) by {
                    assert(touched[g as int] == image);
                }
                lemma_used_has_index(pass@, image);
                let i = choose|i: int| 0 <= i < pass@.len() && pass@[i].0 == image;
                assert(image < image_count);
                assert(!touched.take(g as int).contains(image)) by {
                    if touched.take(g as int).contains(image) {
                        let m = choose|m: int| 0 <= m < g && touched.take(g as int)[m] == image;
                        assert(touched[m] == touched[g as int]);
                    }
                }
            }
            let next = &groups[g].1;
            let ghost out_before = out@;
            if is_hazard(&latest[image], next) {
                let t = ImageTransition { image, previous: copy_accesses(&latest[image]), next: copy_accesses(next) };
                out.push(t);
            }
            let ghost latest_before = latest@;
            latest.set(image, copy_accesses(next));
            proof {
                let pre = touched.take(g as int);
                let post = touched.take(g + 1);
                assert(post.drop_last() == pre);
                assert(post.last() == image);
                assert(transitions_view(out@) == transitions_for(passes@, k as nat, post)) by {
                    assert(transitions_view(out@) =~= transitions_for(passes@, k as nat, post));
                }
                assert forall|img: int| 0 <= img < image_count implies (#[trigger] latest@[img])@ == (if post.contains(
                    img as usize,
                ) {
                    accesses_of(pass@, img as usize)
                } else {
                    previous_accesses(passes@, k as nat, img as usize)
                }) by {
                    if img != image {
                        assert(latest@[img] == latest_before[img]);
                        assert(post.contains(img as usize) == pre.contains(img as usize)) by {
                            if post.contains(img as usize) {
                                let m = choose|m: int| 0 <= m < post.len() && post[m] == img as usize;
                                assert(pre[m] == img as usize);
                            }
                            if pre.contains(img as usize) {
                                let m = choose|m: int| 0 <= m < pre.len() && pre[m] == img as usize;
                                assert(post[m] == img as usize);
                            }
                        }
                    } else {
                        assert(post[g as int] == image);
                    }
                }
            }
            g = g + 1;
        }
        proof {
            assert(touched.take(groups@.len() as int) == touched);
            assert forall|img: int| 0 <= img < image_count implies (#[trigger] latest@[img])@ == previous_accesses(
                passes@,
                (k + 1) as nat,
                img as usize,
            ) by {
                lemma_touched_iff_used(pass@, img as usize);
            }
        }
        plan.push(out);
        proof {
            assert forall|m: int| 0 <= m < k + 1 implies transitions_view(#[trigger] plan@[m]@) == pass_transitions(
                passes@,
                m as nat,
            ) by {}
        }
        k = k + 1;
    }
    plan
}

proof fn lemma_used_has_index(pass: Seq<(usize, AccessType)>, image: usize)
    requires
        accesses_of(pass, image).len() > 0,
    ensures
        exists|i: int| 0 <= i < pass.len() && pass[i].0 == image,
    decreases pass.len(),
{
    if pass.last().0 == image {
        assert(pass[pass.len() - 1].0 == image);
    } else {
        lemma_used_has_index(pass.drop_last(), image);
        let i = choose|i: int| 0 <= i < pass.drop_last().len() && pass.drop_last()[i].0 == image;
        assert(pass[i].0 == image);
    }
}

/// An image that no earlier pass used gets no barrier in the pass that first
/// uses it.
pub proof fn law_first_use_needs_no_barrier(passes: Seq<Vec<(usize, AccessType)>>, k: nat, image: usize)
    requires
        previous_accesses(passes, k, image).len() == 0,
    ensures
        forall|t: int|
            0 <= t < pass_transitions(passes, k).len() ==> #[trigger] pass_transitions(passes, k)[t].0 != image,
{
    lemma_no_transition_for(passes, k, image, touched_images(passes[k as int]@));
}

proof fn lemma_no_transition_for(passes: Seq<Vec<(usize, AccessType)>>, k: nat, image: usize, images: Seq<usize>)
    requires
        previous_accesses(passes, k, image).len() == 0,
    ensures
        forall|t: int|
            0 <= t < transitions_for(passes, k, images).len() ==> #[trigger] transitions_for(passes, k, images)[t].0
                != image,
    decreases images.len(),
{
    if images.len() > 0 {
        lemma_no_transition_for(passes, k, image, images.drop_last());
        let rest = transitions_for(passes, k, images.drop_last());
        let all = transitions_for(passes, k, images);
        assert forall|t: int| 0 <= t < all.len() implies #[trigger] all[t].0 != image by {
            if t < rest.len() {
                assert(all[t] == rest[t]);
            }
        }
    }
}

} // verus!
