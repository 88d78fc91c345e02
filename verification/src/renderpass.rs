//! The render pass a graph pass draws with: one attachment per image it
//! draws to, the colour attachment of each location, the depth attachment,
//! and the layouts the attachments start and end in.
use vstd::prelude::*;
use crate::barrier::{
    LAYOUT_COLOR_ATTACHMENT_OPTIMAL, LAYOUT_DEPTH_STENCIL_ATTACHMENT_OPTIMAL, LAYOUT_DEPTH_STENCIL_READ_ONLY_OPTIMAL,
    LAYOUT_PRESENT_SRC, LAYOUT_UNDEFINED,
};
use crate::graph::AttachmentKind;
use crate::pass::{AttachmentConfig, LOAD_OP_CLEAR, LOAD_OP_DONT_CARE, STORE_OP_DONT_CARE, STORE_OP_STORE};

verus! {

/// Vulkan `VK_ATTACHMENT_UNUSED`: a reference to no attachment.
pub const ATTACHMENT_UNUSED: u32 = 0xffff_ffff;

/// A reference from the subpass to an attachment, with the layout it is used in.
#[derive(Clone, Copy, Debug, PartialEq, Eq, Structural)]
pub struct AttachmentRef {
    pub attachment: u32,
    pub layout: i32,
}

/// How one attachment is described: the image drawn to, its load and store
/// operations, and the layouts it starts and ends the pass in.
#[derive(Clone, Copy, Debug, PartialEq, Eq, Structural)]
pub struct AttachmentPlan {
    pub image: usize,
    pub load_op: i32,
    pub store_op: i32,
    pub stencil_load_op: i32,
    pub stencil_store_op: i32,
    pub initial_layout: i32,
    pub final_layout: i32,
}

/// The attachments of a render pass, the colour reference of each location
/// from 0 to the highest one drawn to, and the depth reference if any.
pub struct RenderpassPlan {
    pub attachments: Vec<AttachmentPlan>,
    pub color_refs: Vec<AttachmentRef>,
    pub depth_ref: Option<AttachmentRef>,
}

/// The highest colour location among the first `n` draws, 0 where there is none.
pub open spec fn max_color_location(draws: Seq<(usize, AttachmentConfig)>, n: int) -> u32
    decreases n,
{
    if n <= 0 {
        0
    } else {
        let rest = max_color_location(draws, n - 1);
        match draws[n - 1].1.kind {
            AttachmentKind::Color(l) => if l > rest {
                l
            } else {
                rest
            },
            _ => rest,
        }
    }
}

/// The last of the first `n` draws that is a colour attachment at `location`.
pub open spec fn last_color_draw(draws: Seq<(usize, AttachmentConfig)>, location: u32, n: int) -> Option<int>
    decreases n,
{
    if n <= 0 {
        None
    } else if draws[n - 1].1.kind == AttachmentKind::Color(location) {
        Some(n - 1)
    } else {
        last_color_draw(draws, location, n - 1)
    }
}

/// Whether an attachment of this kind holds depth.
pub open spec fn is_depth(kind: AttachmentKind) -> bool {
    kind == AttachmentKind::DepthStencil || kind == AttachmentKind::DepthOnly
}

/// The last of the first `n` draws that is a depth attachment.
pub open spec fn last_depth_draw(draws: Seq<(usize, AttachmentConfig)>, n: int) -> Option<int>
    decreases n,
{
    if n <= 0 {
        None
    } else if is_depth(draws[n - 1].1.kind) {
        Some(n - 1)
    } else {
        last_depth_draw(draws, n - 1)
    }
}

/// The layout of the first barrier, from `i` on, that transitions `image`.
pub open spec fn first_barrier_layout(barriers: Seq<(usize, i32)>, image: usize, i: int) -> Option<i32>
    decreases barriers.len() - i,
{
    if i < 0 || i >= barriers.len() {
        None
    } else if barriers[i].0 == image {
        Some(barriers[i].1)
    } else {
        first_barrier_layout(barriers, image, i + 1)
    }
}

/// The layout an attachment of this kind ends the pass in.
pub open spec fn final_layout(kind: AttachmentKind) -> i32 {
    match kind {
        AttachmentKind::Color(_) => LAYOUT_COLOR_ATTACHMENT_OPTIMAL,
        _ => LAYOUT_DEPTH_STENCIL_ATTACHMENT_OPTIMAL,
    }
}

/// The attachment of a draw: it starts in the layout the pass's first
/// barrier on its image leaves it in, else undefined.
pub open spec fn attachment_of(draw: (usize, AttachmentConfig), barriers: Seq<(usize, i32)>) -> AttachmentPlan {
    AttachmentPlan {
        image: draw.0,
        load_op: draw.1.load_op,
        store_op: draw.1.store_op,
        stencil_load_op: draw.1.stencil_load_op,
        stencil_store_op: draw.1.stencil_store_op,
        initial_layout: match first_barrier_layout(barriers, draw.0, 0) {
            Some(l) => l,
            None => LAYOUT_UNDEFINED,
        },
        final_layout: final_layout(draw.1.kind),
    }
}

/// The colour reference of `location` after the first `n` draws: the last
/// draw at that location, else none.
pub open spec fn color_ref(draws: Seq<(usize, AttachmentConfig)>, location: u32, n: int) -> AttachmentRef {
    match last_color_draw(draws, location, n) {
        Some(i) => AttachmentRef { attachment: i as u32, layout: LAYOUT_COLOR_ATTACHMENT_OPTIMAL },
        None => AttachmentRef { attachment: ATTACHMENT_UNUSED, layout: LAYOUT_UNDEFINED },
    }
}

/// The depth reference after the first `n` draws: the last depth draw, if any.
pub open spec fn depth_ref(draws: Seq<(usize, AttachmentConfig)>, n: int) -> Option<AttachmentRef> {
    match last_depth_draw(draws, n) {
        Some(i) => Some(AttachmentRef { attachment: i as u32, layout: LAYOUT_DEPTH_STENCIL_ATTACHMENT_OPTIMAL }),
        None => None,
    }
}

/// Every colour location among the first `n` draws is at most their highest.
proof fn lemma_location_at_most_max(draws: Seq<(usize, AttachmentConfig)>, n: int)
    requires
        0 <= n <= draws.len(),
    ensures
        forall|j: int|
            0 <= j < n ==> (#[trigger] draws[j].1.kind matches AttachmentKind::Color(l) ==> l <= max_color_location(
                draws,
                n,
            )),
        forall|m: int| 0 <= m <= n ==> #[trigger] max_color_location(draws, m) <= max_color_location(draws, n),
    decreases n,
{
    if n > 0 {
        lemma_location_at_most_max(draws, n - 1);
    }
}

/// The layout of the first barrier that transitions `image`.
fn find_barrier_layout(barriers: &[(usize, i32)], image: usize) -> (l: Option<i32>)
    ensures
        l == first_barrier_layout(barriers@, image, 0),
{
    let mut i: usize = 0;
    while i < barriers.len()
        invariant
            i <= barriers@.len(),
            first_barrier_layout(barriers@, image, 0) == first_barrier_layout(barriers@, image, i as int),
        decreases barriers@.len() - i,
    {
        let (b_image, layout) = barriers[i];
        if b_image == image {
            return Some(layout);
        }
        i = i + 1;
    }
    None
}

/// Plans the render pass of a pass that draws `draws` (each the image drawn
/// to and how), in order, where `barrier_layouts` lists the image and new
/// layout of each barrier the pass starts with.
pub fn plan_renderpass(draws: &[(usize, AttachmentConfig)], barrier_layouts: &[(usize, i32)]) -> (p: RenderpassPlan)
    requires
        draws@.len() < u32::MAX,
        forall|j: int, l: u32| 0 <= j < draws@.len() && draws@[j].1.kind == AttachmentKind::Color(l) ==> l < u32::MAX,
    ensures
        p.attachments@.len() == draws@.len(),
        forall|i: int| 0 <= i < draws@.len() ==> #[trigger] p.attachments@[i] == attachment_of(draws@[i], barrier_layouts@),
        p.color_refs@.len() == max_color_location(draws@, draws@.len() as int) + 1,
        forall|l: int| 0 <= l < p.color_refs@.len() ==> #[trigger] p.color_refs@[l] == color_ref(draws@, l as u32, draws@.len() as int),
        p.depth_ref == depth_ref(draws@, draws@.len() as int),
{
    let n = draws.len();
    let mut max_location: u32 = 0;
    let mut i: usize = 0;
    while i < n
        invariant
            n == draws@.len(),
            i <= n,
            max_location == max_color_location(draws@, i as int),
            forall|j: int, l: u32| 0 <= j < draws@.len() && draws@[j].1.kind == AttachmentKind::Color(l) ==> l < u32::MAX,
        decreases n - i,
    {
        match draws[i].1.kind {
            AttachmentKind::Color(l) => {
                if l > max_location {
                    max_location = l;
                }
            },
            _ => {},
        }
        i = i + 1;
    }
    proof {
        lemma_location_at_most_max(draws@, n as int);
        if n > 0 {
            assert(max_location == max_color_location(draws@, n as int));
        }
    }
    assert(max_location < u32::MAX) by {
        if max_location > 0 {
            lemma_max_is_a_location(draws@, n as int);
        }
    }
    let count = max_location as usize + 1;
    let mut color_refs: Vec<AttachmentRef> = Vec::new();
    let mut k: usize = 0;
    while k < count
        invariant
            k <= count,
            color_refs@.len() == k,
            forall|l: int| 0 <= l < k ==> #[trigger] color_refs@[l] == color_ref(draws@, l as u32, 0),
        decreases count - k,
    {
        color_refs.push(AttachmentRef { attachment: ATTACHMENT_UNUSED, layout: LAYOUT_UNDEFINED });
        k = k + 1;
    }
    let mut attachments: Vec<AttachmentPlan> = Vec::new();
    let mut depth: Option<AttachmentRef> = None;
    let mut i: usize = 0;
    while i < n
        invariant
            n == draws@.len(),
            n < u32::MAX,
            i <= n,
            count == max_color_location(draws@, n as int) + 1,
            color_refs@.len() == count,
            attachments@.len() == i,
            forall|j: int| 0 <= j < i ==> #[trigger] attachments@[j] == attachment_of(draws@[j], barrier_layouts@),
            forall|l: int| 0 <= l < count ==> #[trigger] color_refs@[l] == color_ref(draws@, l as u32, i as int),
            depth == depth_ref(draws@, i as int),
            forall|j: int|
                0 <= j < n ==> (#[trigger] draws@[j].1.kind matches AttachmentKind::Color(l) ==> l <= max_color_location(
                    draws@,
                    n as int,
                )),
        decreases n - i,
    {
        let (image, config) = draws[i];
        let initial_layout = match find_barrier_layout(barrier_layouts, image) {
            Some(l) => l,
            None => LAYOUT_UNDEFINED,
        };
        let final_layout = match config.kind {
            AttachmentKind::Color(location) => {
                let r = AttachmentRef { attachment: i as u32, layout: LAYOUT_COLOR_ATTACHMENT_OPTIMAL };
                proof {
                    assert(draws@[i as int].1.kind matches AttachmentKind::Color(l) ==> l <= max_color_location(
                        draws@,
                        n as int,
                    ));
                }
                let ghost before = color_refs@;
                color_refs.set(location as usize, r);
                proof {
                    assert forall|l: int| 0 <= l < count implies #[trigger] color_refs@[l] == color_ref(
                        draws@,
                        l as u32,
                        i + 1,
                    ) by {
                        if l != location as int {
                            assert(before[l] == color_ref(draws@, l as u32, i as int));
                            assert((l as u32) != location);
                        }
                    }
                }
                LAYOUT_COLOR_ATTACHMENT_OPTIMAL
            },
            AttachmentKind::DepthStencil => {
                depth = Some(AttachmentRef { attachment: i as u32, layout: LAYOUT_DEPTH_STENCIL_ATTACHMENT_OPTIMAL });
                LAYOUT_DEPTH_STENCIL_ATTACHMENT_OPTIMAL
            },
            AttachmentKind::DepthOnly => {
                depth = Some(AttachmentRef { attachment: i as u32, layout: LAYOUT_DEPTH_STENCIL_ATTACHMENT_OPTIMAL });
                LAYOUT_DEPTH_STENCIL_ATTACHMENT_OPTIMAL
            },
        };
        attachments.push(
            AttachmentPlan {
                image,
                load_op: config.load_op,
                store_op: config.store_op,
                stencil_load_op: config.stencil_load_op,
                stencil_store_op: config.stencil_store_op,
                initial_layout,
                final_layout,
            },
        );
        i = i + 1;
    }
    RenderpassPlan { attachments, color_refs, depth_ref: depth }
}

/// A highest colour location above 0 is the location of some draw.
proof fn lemma_max_is_a_location(draws: Seq<(usize, AttachmentConfig)>, n: int)
    requires
        0 <= n <= draws.len(),
        max_color_location(draws, n) > 0,
    ensures
        exists|j: int| 0 <= j < n && draws[j].1.kind == AttachmentKind::Color(max_color_location(draws, n)),
    decreases n,
{
    if n > 0 {
        let rest = max_color_location(draws, n - 1);
        match draws[n - 1].1.kind {
            AttachmentKind::Color(l) => {
                if l > rest {
                    assert(draws[n - 1].1.kind == AttachmentKind::Color(max_color_location(draws, n)));
                } else {
                    lemma_max_is_a_location(draws, n - 1);
                }
            },
            _ => {
                lemma_max_is_a_location(draws, n - 1);
            },
        }
    }
}

/// The render pass of the pass that presents to the swapchain: the
/// swapchain's framebuffer holds the swapchain image as colour attachment 0
/// and its depth/stencil image as attachment 1 (`image` numbers them so).
/// Both are cleared and stored; the colour image ends ready to present.
pub fn plan_swapchain_renderpass() -> (p: RenderpassPlan)
    ensures
        p.attachments@ == seq![
            AttachmentPlan {
                image: 0,
                load_op: LOAD_OP_CLEAR,
                store_op: STORE_OP_STORE,
                stencil_load_op: LOAD_OP_DONT_CARE,
                stencil_store_op: STORE_OP_DONT_CARE,
                initial_layout: LAYOUT_UNDEFINED,
                final_layout: LAYOUT_PRESENT_SRC,
            },
            AttachmentPlan {
                image: 1,
                load_op: LOAD_OP_CLEAR,
                store_op: STORE_OP_STORE,
                stencil_load_op: LOAD_OP_DONT_CARE,
                stencil_store_op: STORE_OP_STORE,
                initial_layout: LAYOUT_UNDEFINED,
                final_layout: LAYOUT_DEPTH_STENCIL_READ_ONLY_OPTIMAL,
            },
        ],
        p.color_refs@ == seq![AttachmentRef { attachment: 0, layout: LAYOUT_COLOR_ATTACHMENT_OPTIMAL }],
        p.depth_ref == Some(AttachmentRef { attachment: 1, layout: LAYOUT_DEPTH_STENCIL_ATTACHMENT_OPTIMAL }),
{
    let attachments = vec![
        AttachmentPlan {
            image: 0,
            load_op: LOAD_OP_CLEAR,
            store_op: STORE_OP_STORE,
            stencil_load_op: LOAD_OP_DONT_CARE,
            stencil_store_op: STORE_OP_DONT_CARE,
            initial_layout: LAYOUT_UNDEFINED,
            final_layout: LAYOUT_PRESENT_SRC,
        },
        AttachmentPlan {
            image: 1,
            load_op: LOAD_OP_CLEAR,
            store_op: STORE_OP_STORE,
            stencil_load_op: LOAD_OP_DONT_CARE,
            stencil_store_op: STORE_OP_STORE,
            initial_layout: LAYOUT_UNDEFINED,
            final_layout: LAYOUT_DEPTH_STENCIL_READ_ONLY_OPTIMAL,
        },
    ];
    let color_refs = vec![AttachmentRef { attachment: 0, layout: LAYOUT_COLOR_ATTACHMENT_OPTIMAL }];
    RenderpassPlan {
        attachments,
        color_refs,
        depth_ref: Some(AttachmentRef { attachment: 1, layout: LAYOUT_DEPTH_STENCIL_ATTACHMENT_OPTIMAL }),
    }
}

/// The attachment planned for a draw describes the draw's image with the
/// load and store operations of its configuration, colour and stencil,
/// unchanged. It ends the pass in the attachment layout of its kind, and
/// starts it in the layout the first barrier on its image leaves it in, or
/// undefined where no barrier touches the image.
pub proof fn law_attachment_follows_its_draw(draw: (usize, AttachmentConfig), barriers: Seq<(usize, i32)>)
    ensures
        attachment_of(draw, barriers).image == draw.0,
        attachment_of(draw, barriers).load_op == draw.1.load_op,
        attachment_of(draw, barriers).store_op == draw.1.store_op,
        attachment_of(draw, barriers).stencil_load_op == draw.1.stencil_load_op,
        attachment_of(draw, barriers).stencil_store_op == draw.1.stencil_store_op,
        draw.1.kind is Color ==> attachment_of(draw, barriers).final_layout == LAYOUT_COLOR_ATTACHMENT_OPTIMAL,
        !(draw.1.kind is Color) ==> attachment_of(draw, barriers).final_layout
            == LAYOUT_DEPTH_STENCIL_ATTACHMENT_OPTIMAL,
        (forall|j: int| 0 <= j < barriers.len() ==> (#[trigger] barriers[j]).0 != draw.0) ==> attachment_of(
            draw,
            barriers,
        ).initial_layout == LAYOUT_UNDEFINED,
        forall|i: int|
            0 <= i < barriers.len() && (#[trigger] barriers[i]).0 == draw.0 && (forall|j: int|
                0 <= j < i ==> barriers[j].0 != draw.0) ==> attachment_of(draw, barriers).initial_layout
                == barriers[i].1,
{
    lemma_first_barrier(barriers, draw.0, 0);
}

/// What `first_barrier_layout` finds from `k` on is the layout of the first
/// barrier on `image` from `k` on.
proof fn lemma_first_barrier(barriers: Seq<(usize, i32)>, image: usize, k: int)
    requires
        0 <= k,
    ensures
        forall|i: int|
            k <= i < barriers.len() && (#[trigger] barriers[i]).0 == image && (forall|j: int|
                k <= j < i ==> barriers[j].0 != image) ==> first_barrier_layout(barriers, image, k) == Some(
                barriers[i].1,
            ),
        (forall|j: int| k <= j < barriers.len() ==> (#[trigger] barriers[j]).0 != image) ==> first_barrier_layout(
            barriers,
            image,
            k,
        ) is None,
    decreases barriers.len() - k,
{
    if k < barriers.len() {
        lemma_first_barrier(barriers, image, k + 1);
        assert forall|i: int|
            k <= i < barriers.len() && (#[trigger] barriers[i]).0 == image && (forall|j: int|
                k <= j < i ==> barriers[j].0 != image) implies first_barrier_layout(barriers, image, k) == Some(
            barriers[i].1,
        ) by {
            if i > k {
                assert(barriers[k].0 != image);
            }
        }
        assert((forall|j: int| k <= j < barriers.len() ==> (#[trigger] barriers[j]).0 != image) ==> barriers[k].0
            != image);
    }
}

/// The last of the first `n` draws at colour `location`, if any draw is there.
proof fn lemma_last_color_draw(draws: Seq<(usize, AttachmentConfig)>, location: u32, n: int)
    requires
        0 <= n <= draws.len(),
    ensures
        match last_color_draw(draws, location, n) {
            Some(i) => 0 <= i < n && draws[i].1.kind == AttachmentKind::Color(location) && forall|j: int|
                i < j < n ==> (#[trigger] draws[j]).1.kind != AttachmentKind::Color(location),
            None => forall|j: int| 0 <= j < n ==> (#[trigger] draws[j]).1.kind != AttachmentKind::Color(location),
        },
    decreases n,
{
    if n > 0 {
        lemma_last_color_draw(draws, location, n - 1);
    }
}

/// The last of the first `n` draws that holds depth, if any does.
proof fn lemma_last_depth_draw(draws: Seq<(usize, AttachmentConfig)>, n: int)
    requires
        0 <= n <= draws.len(),
    ensures
        match last_depth_draw(draws, n) {
            Some(i) => 0 <= i < n && is_depth(draws[i].1.kind) && forall|j: int|
                i < j < n ==> !is_depth((#[trigger] draws[j]).1.kind),
            None => forall|j: int| 0 <= j < n ==> !is_depth((#[trigger] draws[j]).1.kind),
        },
    decreases n,
{
    if n > 0 {
        lemma_last_depth_draw(draws, n - 1);
    }
}

/// The colour reference of a location names the last draw at that location,
/// in the colour-attachment layout; a location no draw uses refers to no
/// attachment. Every location drawn to has a reference.
pub proof fn law_color_refs_name_the_last_draw(draws: Seq<(usize, AttachmentConfig)>, location: u32)
    requires
        draws.len() < u32::MAX,
    ensures
        (forall|j: int| 0 <= j < draws.len() ==> (#[trigger] draws[j]).1.kind != AttachmentKind::Color(location))
            ==> color_ref(draws, location, draws.len() as int) == (AttachmentRef {
            attachment: ATTACHMENT_UNUSED,
            layout: LAYOUT_UNDEFINED,
        }),
        forall|i: int|
            0 <= i < draws.len() && (#[trigger] draws[i]).1.kind == AttachmentKind::Color(location) && (forall|j: int|
                i < j < draws.len() ==> draws[j].1.kind != AttachmentKind::Color(location)) ==> color_ref(
                draws,
                location,
                draws.len() as int,
            ) == (AttachmentRef { attachment: i as u32, layout: LAYOUT_COLOR_ATTACHMENT_OPTIMAL }),
        forall|i: int|
            0 <= i < draws.len() && (#[trigger] draws[i]).1.kind == AttachmentKind::Color(location) ==> location
                <= max_color_location(draws, draws.len() as int),
{
    let n = draws.len() as int;
    lemma_last_color_draw(draws, location, n);
    lemma_location_at_most_max(draws, n);
    assert forall|i: int|
        0 <= i < n && (#[trigger] draws[i]).1.kind == AttachmentKind::Color(location) && (forall|j: int|
            i < j < n ==> draws[j].1.kind != AttachmentKind::Color(location)) implies color_ref(
        draws,
        location,
        n,
    ) == (AttachmentRef { attachment: i as u32, layout: LAYOUT_COLOR_ATTACHMENT_OPTIMAL }) by {
        match last_color_draw(draws, location, n) {
            Some(k) => {
                if k < i {
                    assert(draws[i].1.kind != AttachmentKind::Color(location));
                } else if k > i {
                    assert(draws[k].1.kind != AttachmentKind::Color(location));
                }
            },
            None => {
                assert(draws[i].1.kind != AttachmentKind::Color(location));
            },
        }
    }
    assert forall|i: int|
        0 <= i < n && (#[trigger] draws[i]).1.kind == AttachmentKind::Color(location) implies location
        <= max_color_location(draws, n) by {
        assert(draws[i].1.kind matches AttachmentKind::Color(l) ==> l <= max_color_location(draws, n));
    }
}

/// The depth reference names the last draw that holds depth, in the
/// depth/stencil-attachment layout; there is none where no draw holds depth.
pub proof fn law_depth_ref_names_the_last_depth_draw(draws: Seq<(usize, AttachmentConfig)>)
    requires
        draws.len() < u32::MAX,
    ensures
        (forall|j: int| 0 <= j < draws.len() ==> !is_depth((#[trigger] draws[j]).1.kind)) ==> depth_ref(
            draws,
            draws.len() as int,
        ) is None,
        forall|i: int|
            0 <= i < draws.len() && is_depth((#[trigger] draws[i]).1.kind) && (forall|j: int|
                i < j < draws.len() ==> !is_depth(draws[j].1.kind)) ==> depth_ref(draws, draws.len() as int)
                == Some(AttachmentRef { attachment: i as u32, layout: LAYOUT_DEPTH_STENCIL_ATTACHMENT_OPTIMAL }),
{
    let n = draws.len() as int;
    lemma_last_depth_draw(draws, n);
    assert forall|i: int|
        0 <= i < n && is_depth((#[trigger] draws[i]).1.kind) && (forall|j: int|
            i < j < n ==> !is_depth(draws[j].1.kind)) implies depth_ref(draws, n) == Some(
        AttachmentRef { attachment: i as u32, layout: LAYOUT_DEPTH_STENCIL_ATTACHMENT_OPTIMAL },
    ) by {
        match last_depth_draw(draws, n) {
            Some(k) => {
                if k < i {
                    assert(!is_depth(draws[i].1.kind));
                } else if k > i {
                    assert(!is_depth(draws[k].1.kind));
                }
            },
            None => {
                assert(!is_depth(draws[i].1.kind));
            },
        }
    }
}

} // verus!
