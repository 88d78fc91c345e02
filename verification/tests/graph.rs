use hikari::barrier::AccessType;
use hikari::graph::{
    check_duplicate_pass_names, check_only_last_pass_presents_to_swapchain, outputs_swapchain, plan_image_barriers,
    validate, GraphCreationError,
};

fn names(list: &[&str]) -> Vec<String> {
    list.iter().map(|s| s.to_string()).collect()
}

#[test]
fn distinct_pass_names_pass() {
    assert_eq!(check_duplicate_pass_names(&names(&["gbuffer", "lighting", "tonemap"])), Ok(()));
    assert_eq!(check_duplicate_pass_names(&[]), Ok(()));
}

#[test]
fn the_first_repeated_pass_name_is_reported() {
    let r = check_duplicate_pass_names(&names(&["a", "b", "b", "a"]));
    assert_eq!(r, Err(GraphCreationError::DuplicatePassName("b".to_string())));
}

#[test]
fn only_the_last_pass_may_present() {
    assert_eq!(check_only_last_pass_presents_to_swapchain(&[false, false, true]), Ok(()));
    assert_eq!(check_only_last_pass_presents_to_swapchain(&[false, false, false]), Ok(()));
    assert_eq!(
        check_only_last_pass_presents_to_swapchain(&[false, true, false]),
        Err(GraphCreationError::LastPassPresentOnly)
    );
    assert_eq!(
        check_only_last_pass_presents_to_swapchain(&[true, false, true]),
        Err(GraphCreationError::LastPassPresentOnly)
    );
}

#[test]
fn validation_checks_names_first() {
    assert_eq!(
        validate(&names(&["x", "x"]), &[true, false]),
        Err(GraphCreationError::DuplicatePassName("x".to_string()))
    );
    assert_eq!(validate(&names(&["x", "y"]), &[true, false]), Err(GraphCreationError::LastPassPresentOnly));
    assert_eq!(validate(&names(&["x", "y"]), &[false, true]), Ok(()));
}

#[test]
fn swapchain_output_is_any_present() {
    assert!(outputs_swapchain(&[false, true]));
    assert!(!outputs_swapchain(&[false, false]));
}

#[test]
fn barriers_between_passes() {
    let passes = vec![
        vec![(0usize, AccessType::ColorAttachmentWrite), (1, AccessType::DepthStencilAttachmentWrite)],
        vec![(0, AccessType::FragmentShaderReadSampledImageOrUniformTexelBuffer), (2, AccessType::ColorAttachmentWrite)],
        vec![(0, AccessType::FragmentShaderReadSampledImageOrUniformTexelBuffer), (2, AccessType::FragmentShaderReadSampledImageOrUniformTexelBuffer)],
    ];
    let plan = plan_image_barriers(&passes, 3);
    assert_eq!(plan.len(), 3);
    assert!(plan[0].is_empty());
    assert_eq!(plan[1].len(), 1);
    assert_eq!(plan[1][0].image, 0);
    assert_eq!(plan[1][0].previous, vec![AccessType::ColorAttachmentWrite]);
    assert_eq!(plan[1][0].next, vec![AccessType::FragmentShaderReadSampledImageOrUniformTexelBuffer]);
    assert_eq!(plan[2].len(), 1);
    assert_eq!(plan[2][0].image, 2);
}

#[test]
fn accesses_of_one_image_in_a_pass_are_grouped() {
    let passes = vec![
        vec![(1usize, AccessType::TransferWrite)],
        vec![(0, AccessType::ComputeShaderReadOther), (1, AccessType::ComputeShaderReadOther), (1, AccessType::ComputeShaderWrite)],
    ];
    let plan = plan_image_barriers(&passes, 2);
    assert!(plan[0].is_empty());
    assert_eq!(plan[1].len(), 1);
    assert_eq!(plan[1][0].image, 1);
    assert_eq!(plan[1][0].previous, vec![AccessType::TransferWrite]);
    assert_eq!(plan[1][0].next, vec![AccessType::ComputeShaderReadOther, AccessType::ComputeShaderWrite]);
}

#[test]
fn the_previous_use_is_the_last_pass_that_used_the_image() {
    let passes = vec![
        vec![(0usize, AccessType::TransferWrite)],
        vec![(1, AccessType::TransferWrite)],
        vec![(0, AccessType::TransferRead)],
    ];
    let plan = plan_image_barriers(&passes, 2);
    assert!(plan[1].is_empty());
    assert_eq!(plan[2].len(), 1);
    assert_eq!(plan[2][0].previous, vec![AccessType::TransferWrite]);
}
