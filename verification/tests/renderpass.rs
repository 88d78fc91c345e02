use hikari::barrier::{LAYOUT_COLOR_ATTACHMENT_OPTIMAL, LAYOUT_DEPTH_STENCIL_ATTACHMENT_OPTIMAL, LAYOUT_GENERAL, LAYOUT_UNDEFINED};
use hikari::pass::AttachmentConfig;
use hikari::renderpass::{plan_renderpass, plan_swapchain_renderpass, AttachmentRef, ATTACHMENT_UNUSED};
use hikari::barrier::LAYOUT_PRESENT_SRC;

#[test]
fn attachments_and_references_follow_the_draws() {
    let color2 = AttachmentConfig::color_default(2);
    let color0 = AttachmentConfig::color_default(0);
    let depth = AttachmentConfig::depth_stencil_default();
    let draws = [(10usize, color2), (11usize, depth), (12usize, color0)];
    let barriers = [(12usize, LAYOUT_GENERAL), (10usize, LAYOUT_COLOR_ATTACHMENT_OPTIMAL), (12usize, 99)];
    let plan = plan_renderpass(&draws, &barriers);
    assert_eq!(plan.attachments.len(), 3);
    assert_eq!(plan.attachments[0].image, 10);
    assert_eq!(plan.attachments[0].initial_layout, LAYOUT_COLOR_ATTACHMENT_OPTIMAL);
    assert_eq!(plan.attachments[0].final_layout, LAYOUT_COLOR_ATTACHMENT_OPTIMAL);
    assert_eq!(plan.attachments[0].load_op, color2.load_op);
    assert_eq!(plan.attachments[1].initial_layout, LAYOUT_UNDEFINED);
    assert_eq!(plan.attachments[1].final_layout, LAYOUT_DEPTH_STENCIL_ATTACHMENT_OPTIMAL);
    assert_eq!(plan.attachments[2].initial_layout, LAYOUT_GENERAL);
    assert_eq!(
        plan.color_refs,
        vec![
            AttachmentRef { attachment: 2, layout: LAYOUT_COLOR_ATTACHMENT_OPTIMAL },
            AttachmentRef { attachment: ATTACHMENT_UNUSED, layout: LAYOUT_UNDEFINED },
            AttachmentRef { attachment: 0, layout: LAYOUT_COLOR_ATTACHMENT_OPTIMAL },
        ]
    );
    assert_eq!(plan.depth_ref, Some(AttachmentRef { attachment: 1, layout: LAYOUT_DEPTH_STENCIL_ATTACHMENT_OPTIMAL }));
}

#[test]
fn a_pass_without_colour_draws_has_one_unused_colour_reference() {
    let plan = plan_renderpass(&[(3usize, AttachmentConfig::depth_only_default())], &[]);
    assert_eq!(plan.color_refs, vec![AttachmentRef { attachment: ATTACHMENT_UNUSED, layout: LAYOUT_UNDEFINED }]);
    assert_eq!(plan.depth_ref.unwrap().attachment, 0);
    let empty = plan_renderpass(&[], &[]);
    assert!(empty.attachments.is_empty());
    assert_eq!(empty.color_refs.len(), 1);
    assert_eq!(empty.depth_ref, None);
}

#[test]
fn a_later_draw_at_a_location_takes_the_reference() {
    let draws = [(1usize, AttachmentConfig::color_default(0)), (2usize, AttachmentConfig::color_default(0))];
    let plan = plan_renderpass(&draws, &[]);
    assert_eq!(plan.color_refs, vec![AttachmentRef { attachment: 1, layout: LAYOUT_COLOR_ATTACHMENT_OPTIMAL }]);
}

#[test]
fn swapchain_framebuffer_has_colour_0_and_depth_1() {
    let plan = plan_swapchain_renderpass();
    assert_eq!(plan.attachments.len(), 2);
    assert_eq!(plan.attachments[0].final_layout, LAYOUT_PRESENT_SRC);
    assert_eq!(plan.color_refs, vec![AttachmentRef { attachment: 0, layout: LAYOUT_COLOR_ATTACHMENT_OPTIMAL }]);
    assert_eq!(plan.depth_ref, Some(AttachmentRef { attachment: 1, layout: LAYOUT_DEPTH_STENCIL_ATTACHMENT_OPTIMAL }));
}
