use hikari::barrier::AccessType;
use hikari::pass::{AttachmentConfig, PassError, PassIo, LOAD_OP_CLEAR, STORE_OP_DONT_CARE, STORE_OP_STORE};
use hikari::graph::AttachmentKind;
use hikari::storage::{GpuHandle, Resource, Storage};

struct Image;
impl Resource for Image {
    type Metadata = ();
}

fn two_images() -> (GpuHandle<Image>, GpuHandle<Image>) {
    let mut s = Storage::new();
    (s.add(Image, ()), s.add(Image, ()))
}

#[test]
fn attachment_defaults() {
    let c = AttachmentConfig::color_default(2);
    assert_eq!(c.kind, AttachmentKind::Color(2));
    assert_eq!(c.access, AccessType::ColorAttachmentWrite);
    assert_eq!((c.load_op, c.store_op, c.stencil_store_op), (LOAD_OP_CLEAR, STORE_OP_STORE, STORE_OP_DONT_CARE));
    let d = AttachmentConfig::depth_stencil_default();
    assert_eq!(d.kind, AttachmentKind::DepthStencil);
    assert_eq!(d.stencil_store_op, STORE_OP_STORE);
    assert_eq!(AttachmentConfig::depth_only_default().kind, AttachmentKind::DepthOnly);
}

#[test]
fn reading_an_image_twice_is_refused() {
    let (a, b) = two_images();
    let pass: PassIo<Image> = PassIo::new();
    let access = AccessType::FragmentShaderReadSampledImageOrUniformTexelBuffer;
    assert_eq!(pass.read_image_check(&a, access), Ok(()));
    let pass = pass.read_image(&a, access);
    assert_eq!(pass.read_image_check(&a, access), Err(PassError::AlreadyRead));
    assert_eq!(pass.read_image_check(&b, access), Ok(()));
    assert_eq!(
        pass.read_image_check(&b, AccessType::TransferRead),
        Err(PassError::InvalidReadAccess(AccessType::TransferRead))
    );
}

#[test]
fn writes_and_draws_are_checked() {
    let (a, b) = two_images();
    let pass: PassIo<Image> = PassIo::new();
    assert_eq!(
        pass.write_image_check(&a, AccessType::ColorAttachmentWrite),
        Err(PassError::InvalidWriteAccess(AccessType::ColorAttachmentWrite))
    );
    let pass = pass.write_image(&a, AccessType::ComputeShaderWrite);
    assert_eq!(pass.write_image_check(&a, AccessType::ComputeShaderWrite), Err(PassError::AlreadyWritten));
    assert_eq!(pass.draw_image_check(&a, AccessType::ColorAttachmentWrite), Err(PassError::AlreadyWritten));
    assert_eq!(pass.draw_image_check(&b, AccessType::ColorAttachmentWrite), Ok(()));
    assert_eq!(
        pass.draw_image_check(&b, AccessType::ComputeShaderWrite),
        Err(PassError::InvalidDrawAccess(AccessType::ComputeShaderWrite))
    );
}

#[test]
fn presenting_forbids_draws() {
    let (a, b) = two_images();
    let pass: PassIo<Image> = PassIo::new();
    assert_eq!(pass.present_check(), Ok(()));
    let presenting = pass.present();
    assert!(presenting.presents_to_swapchain());
    // Once a pass presents, drawing to another image is refused.
    assert_eq!(
        presenting.draw_image_check(&b, AccessType::ColorAttachmentWrite),
        Err(PassError::PresentWithDraws)
    );

    let pass: PassIo<Image> = PassIo::new().draw_image(&b, AttachmentConfig::color_default(0));
    assert_eq!(pass.present_check(), Err(PassError::PresentWithDraws));
    let pass = pass.read_image(&a, AccessType::FragmentShaderReadOther);
    assert!(!pass.presents_to_swapchain());
}

#[test]
fn image_accesses_list_reads_then_writes() {
    let (a, b) = two_images();
    let pass: PassIo<Image> = PassIo::new()
        .draw_image(&b, AttachmentConfig::color_default(0))
        .read_image(&a, AccessType::FragmentShaderReadOther)
        .write_image(&a, AccessType::FragmentShaderWrite);
    assert_eq!(
        pass.image_accesses(),
        vec![
            (0, AccessType::FragmentShaderReadOther),
            (1, AccessType::ColorAttachmentWrite),
            (0, AccessType::FragmentShaderWrite)
        ]
    );
}
