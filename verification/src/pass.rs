//! What a render or compute pass reads and writes, and the checks made when
//! a use is declared: an image is read at most once and written at most once
//! by a pass, each use with an access type that fits it, and a pass that
//! presents to the swapchain draws to no other image.
use vstd::prelude::*;
use crate::barrier::AccessType;
use crate::graph::AttachmentKind;
use crate::storage::{ErasedHandle, GpuHandle};

verus! {

/// `VK_ATTACHMENT_LOAD_OP_LOAD`, `_CLEAR` and `_DONT_CARE`.
pub const LOAD_OP_LOAD: i32 = 0;
pub const LOAD_OP_CLEAR: i32 = 1;
pub const LOAD_OP_DONT_CARE: i32 = 2;
/// `VK_ATTACHMENT_STORE_OP_STORE` and `_DONT_CARE`.
pub const STORE_OP_STORE: i32 = 0;
pub const STORE_OP_DONT_CARE: i32 = 1;

/// How a pass draws to an attachment.
#[derive(Clone, Copy, Debug, PartialEq, Eq, Structural)]
pub struct AttachmentConfig {
    pub kind: AttachmentKind,
    pub access: AccessType,
    pub load_op: i32,
    pub store_op: i32,
    pub stencil_store_op: i32,
    pub stencil_load_op: i32,
}

impl AttachmentConfig {
    /// A colour attachment at `location`, cleared and stored, without stencil.
    pub fn color_default(location: u32) -> (c: Self)
        ensures
            c == (AttachmentConfig {
                kind: AttachmentKind::Color(location),
                access: AccessType::ColorAttachmentWrite,
                load_op: LOAD_OP_CLEAR,
                store_op: STORE_OP_STORE,
                stencil_store_op: STORE_OP_DONT_CARE,
                stencil_load_op: LOAD_OP_DONT_CARE,
            }),
    {
        AttachmentConfig {
            kind: AttachmentKind::Color(location),
            access: AccessType::ColorAttachmentWrite,
            load_op: LOAD_OP_CLEAR,
            store_op: STORE_OP_STORE,
            stencil_load_op: LOAD_OP_DONT_CARE,
            stencil_store_op: STORE_OP_DONT_CARE,
        }
    }

    /// A depth attachment, cleared and stored, without stencil.
    pub fn depth_only_default() -> (c: Self)
        ensures
            c == (AttachmentConfig {
                kind: AttachmentKind::DepthOnly,
                access: AccessType::DepthStencilAttachmentWrite,
                load_op: LOAD_OP_CLEAR,
                store_op: STORE_OP_STORE,
                stencil_store_op: STORE_OP_DONT_CARE,
                stencil_load_op: LOAD_OP_DONT_CARE,
            }),
    {
        AttachmentConfig {
            kind: AttachmentKind::DepthOnly,
            access: AccessType::DepthStencilAttachmentWrite,
            load_op: LOAD_OP_CLEAR,
            store_op: STORE_OP_STORE,
            stencil_load_op: LOAD_OP_DONT_CARE,
            stencil_store_op: STORE_OP_DONT_CARE,
        }
    }

    /// A depth-stencil attachment, depth and stencil cleared and stored.
    pub fn depth_stencil_default() -> (c: Self)
        ensures
            c == (AttachmentConfig {
                kind: AttachmentKind::DepthStencil,
                access: AccessType::DepthStencilAttachmentWrite,
                load_op: LOAD_OP_CLEAR,
                store_op: STORE_OP_STORE,
                stencil_store_op: STORE_OP_STORE,
                stencil_load_op: LOAD_OP_CLEAR,
            }),
    {
        AttachmentConfig {
            kind: AttachmentKind::DepthStencil,
            access: AccessType::DepthStencilAttachmentWrite,
            load_op: LOAD_OP_CLEAR,
            store_op: STORE_OP_STORE,
            stencil_load_op: LOAD_OP_CLEAR,
            stencil_store_op: STORE_OP_STORE,
        }
    }
}

/// A resource a pass reads.
pub enum Input<I> {
    ReadImage(GpuHandle<I>, AccessType),
    ReadStorageBuffer(ErasedHandle, AccessType),
}

/// A resource a pass writes.
pub enum Output<I> {
    WriteImage(GpuHandle<I>, AccessType),
    DrawImage(GpuHandle<I>, AttachmentConfig),
    WriteStorageBuffer(ErasedHandle, AccessType),
}

/// A declared use of an image that a pass refuses.
#[derive(Clone, Copy, Debug, PartialEq, Eq, Structural)]
pub enum PassError {
    /// The pass already reads the image.
    AlreadyRead,
    /// The pass already writes the image.
    AlreadyWritten,
    /// The access type is not one an image read can have.
    InvalidReadAccess(AccessType),
    /// The access type is not one an image write can have.
    InvalidWriteAccess(AccessType),
    /// The access type is not one an attachment can have.
    InvalidDrawAccess(AccessType),
    /// A pass that presents to the swapchain draws to another image.
    PresentWithDraws,
}

/// The access types an image read can have.
pub open spec fn is_image_read_access(a: AccessType) -> bool {
    match a {
        AccessType::ComputeShaderReadSampledImageOrUniformTexelBuffer
        | AccessType::Nothing
        | AccessType::VertexShaderReadSampledImageOrUniformTexelBuffer
        | AccessType::VertexShaderReadOther
        | AccessType::TessellationControlShaderReadSampledImageOrUniformTexelBuffer
        | AccessType::TessellationControlShaderReadOther
        | AccessType::TessellationEvaluationShaderReadSampledImageOrUniformTexelBuffer
        | AccessType::TessellationEvaluationShaderReadOther
        | AccessType::GeometryShaderReadSampledImageOrUniformTexelBuffer
        | AccessType::GeometryShaderReadOther
        | AccessType::FragmentShaderReadSampledImageOrUniformTexelBuffer
        | AccessType::FragmentShaderReadColorInputAttachment
        | AccessType::FragmentShaderReadDepthStencilInputAttachment
        | AccessType::FragmentShaderReadOther
        | AccessType::ColorAttachmentRead
        | AccessType::DepthStencilAttachmentRead
        | AccessType::ComputeShaderReadOther
        | AccessType::AnyShaderReadSampledImageOrUniformTexelBuffer
        | AccessType::AnyShaderReadOther => true,
        _ => false,
    }
}

/// The access types an image write can have.
pub open spec fn is_image_write_access(a: AccessType) -> bool {
    match a {
        AccessType::VertexShaderWrite
        | AccessType::TessellationControlShaderWrite
        | AccessType::TessellationEvaluationShaderWrite
        | AccessType::GeometryShaderWrite
        | AccessType::FragmentShaderWrite
        | AccessType::ComputeShaderWrite
        | AccessType::AnyShaderWrite
        | AccessType::TransferWrite
        | AccessType::HostWrite
        | AccessType::General => true,
        _ => false,
    }
}

/// The access types an attachment can have.
pub open spec fn is_attachment_access(a: AccessType) -> bool {
    match a {
        AccessType::ColorAttachmentRead
        | AccessType::ColorAttachmentReadWrite
        | AccessType::DepthStencilAttachmentRead
        | AccessType::ColorAttachmentWrite
        | AccessType::DepthStencilAttachmentWrite
        | AccessType::DepthAttachmentWriteStencilReadOnly
        | AccessType::StencilAttachmentWriteDepthReadOnly => true,
        _ => false,
    }
}

fn image_read_access_allowed(a: AccessType) -> (ok: bool)
    ensures
        ok == is_image_read_access(a),
{
    match a {
        AccessType::ComputeShaderReadSampledImageOrUniformTexelBuffer
        | AccessType::Nothing
        | AccessType::VertexShaderReadSampledImageOrUniformTexelBuffer
        | AccessType::VertexShaderReadOther
        | AccessType::TessellationControlShaderReadSampledImageOrUniformTexelBuffer
        | AccessType::TessellationControlShaderReadOther
        | AccessType::TessellationEvaluationShaderReadSampledImageOrUniformTexelBuffer
        | AccessType::TessellationEvaluationShaderReadOther
        | AccessType::GeometryShaderReadSampledImageOrUniformTexelBuffer
        | AccessType::GeometryShaderReadOther
        | AccessType::FragmentShaderReadSampledImageOrUniformTexelBuffer
        | AccessType::FragmentShaderReadColorInputAttachment
        | AccessType::FragmentShaderReadDepthStencilInputAttachment
        | AccessType::FragmentShaderReadOther
        | AccessType::ColorAttachmentRead
        | AccessType::DepthStencilAttachmentRead
        | AccessType::ComputeShaderReadOther
        | AccessType::AnyShaderReadSampledImageOrUniformTexelBuffer
        | AccessType::AnyShaderReadOther => true,
        _ => false,
    }
}

fn image_write_access_allowed(a: AccessType) -> (ok: bool)
    ensures
        ok == is_image_write_access(a),
{
    match a {
        AccessType::VertexShaderWrite
        | AccessType::TessellationControlShaderWrite
        | AccessType::TessellationEvaluationShaderWrite
        | AccessType::GeometryShaderWrite
        | AccessType::FragmentShaderWrite
        | AccessType::ComputeShaderWrite
        | AccessType::AnyShaderWrite
        | AccessType::TransferWrite
        | AccessType::HostWrite
        | AccessType::General => true,
        _ => false,
    }
}

fn attachment_access_allowed(a: AccessType) -> (ok: bool)
    ensures
        ok == is_attachment_access(a),
{
    match a {
        AccessType::ColorAttachmentRead
        | AccessType::ColorAttachmentReadWrite
        | AccessType::DepthStencilAttachmentRead
        | AccessType::ColorAttachmentWrite
        | AccessType::DepthStencilAttachmentWrite
        | AccessType::DepthAttachmentWriteStencilReadOnly
        | AccessType::StencilAttachmentWriteDepthReadOnly => true,
        _ => false,
    }
}

/// The image a use names with its access, if the use is of an image.
pub open spec fn input_image<I>(input: Input<I>) -> Option<(usize, AccessType)> {
    match input {
        Input::ReadImage(h, a) => Some((h.index(), a)),
        Input::ReadStorageBuffer(_, _) => None,
    }
}

/// The image an output names with its access, if the output is an image.
pub open spec fn output_image<I>(output: Output<I>) -> Option<(usize, AccessType)> {
    match output {
        Output::WriteImage(h, a) => Some((h.index(), a)),
        Output::DrawImage(h, config) => Some((h.index(), config.access)),
        Output::WriteStorageBuffer(_, _) => None,
    }
}

/// The images `uses` names, in order, with their accesses.
pub open spec fn named_images(uses: Seq<Option<(usize, AccessType)>>) -> Seq<(usize, AccessType)>
    decreases uses.len(),
{
    if uses.len() == 0 {
        Seq::empty()
    } else {
        let rest = named_images(uses.drop_last());
        match uses.last() {
            Some(u) => rest.push(u),
            None => rest,
        }
    }
}

/// The reads and writes a pass declares, and whether it presents to the
/// swapchain.
pub struct PassIo<I> {
    inputs: Vec<Input<I>>,
    outputs: Vec<Output<I>>,
    present_to_swapchain: bool,
}

impl<I> PassIo<I> {
    /// A pass that presents draws to no image.
    #[verifier::type_invariant]
    spec fn present_excludes_draws(&self) -> bool {
        self.present_to_swapchain ==> forall|i: int| 0 <= i < self.outputs@.len() ==> !(#[trigger] self.outputs@[i] is DrawImage)
    }

    pub closed spec fn input_list(&self) -> Seq<Input<I>> {
        self.inputs@
    }

    pub closed spec fn output_list(&self) -> Seq<Output<I>> {
        self.outputs@
    }

    pub closed spec fn presents(&self) -> bool {
        self.present_to_swapchain
    }

    /// The pass already reads the image at `index`.
    pub open spec fn reads_image(&self, index: usize) -> bool {
        exists|i: int|
            0 <= i < self.input_list().len() && (#[trigger] self.input_list()[i] matches Input::ReadImage(h, _) && h.index()
                == index)
    }

    /// The pass already writes the image at `index` (drawing to it does not count).
    pub open spec fn writes_image(&self, index: usize) -> bool {
        exists|i: int|
            0 <= i < self.output_list().len() && (#[trigger] self.output_list()[i] matches Output::WriteImage(h, _)
                && h.index() == index)
    }

    /// The pass draws to some image.
    pub open spec fn draws(&self) -> bool {
        exists|i: int| 0 <= i < self.output_list().len() && #[trigger] self.output_list()[i] is DrawImage
    }

    /// A pass with no uses that does not present.
    pub fn new() -> (p: Self)
        ensures
            p.input_list() == Seq::<Input<I>>::empty(),
            p.output_list() == Seq::<Output<I>>::empty(),
            !p.presents(),
    {
        PassIo { inputs: Vec::new(), outputs: Vec::new(), present_to_swapchain: false }
    }

    /// Whether the pass may read `image` with `access_type`: it must not read
    /// it already, and the access must be one of a read.
    pub fn read_image_check(&self, image: &GpuHandle<I>, access_type: AccessType) -> (r: Result<(), PassError>)
        ensures
            self.reads_image(image.index()) ==> r == Err::<(), PassError>(PassError::AlreadyRead),
            !self.reads_image(image.index()) && !is_image_read_access(access_type) ==> r == Err::<(), PassError>(
                PassError::InvalidReadAccess(access_type),
            ),
            !self.reads_image(image.index()) && is_image_read_access(access_type) ==> r is Ok,
    {
        let mut i: usize = 0;
        while i < self.inputs.len()
            invariant
                i <= self.inputs@.len(),
                forall|k: int|
                    0 <= k < i ==> !(#[trigger] self.inputs@[k] matches Input::ReadImage(h, _) && h.index()
                        == image.index()),
            decreases self.inputs@.len() - i,
        {
            match &self.inputs[i] {
                Input::ReadImage(existing, _) => {
                    if existing.position() == image.position() {
                        assert(self.input_list()[i as int] matches Input::ReadImage(h, _) && h.index() == image.index());
                        return Err(PassError::AlreadyRead);
                    }
                },
                Input::ReadStorageBuffer(_, _) => {},
            }
            i = i + 1;
        }
        if image_read_access_allowed(access_type) {
            Ok(())
        } else {
            Err(PassError::InvalidReadAccess(access_type))
        }
    }

    /// Whether the pass may write `image` with `access_type`: it must not
    /// write it already, and the access must be one of a write.
    pub fn write_image_check(&self, image: &GpuHandle<I>, access_type: AccessType) -> (r: Result<(), PassError>)
        ensures
            self.writes_image(image.index()) ==> r == Err::<(), PassError>(PassError::AlreadyWritten),
            !self.writes_image(image.index()) && !is_image_write_access(access_type) ==> r == Err::<(), PassError>(
                PassError::InvalidWriteAccess(access_type),
            ),
            !self.writes_image(image.index()) && is_image_write_access(access_type) ==> r is Ok,
    {
        if self.already_written(image) {
            return Err(PassError::AlreadyWritten);
        }
        if image_write_access_allowed(access_type) {
            Ok(())
        } else {
            Err(PassError::InvalidWriteAccess(access_type))
        }
    }

    /// Whether the pass may draw to `image` with `access_type`: it must not
    /// present to the swapchain, must not write the image already, and the
    /// access must be one of an attachment.
    pub fn draw_image_check(&self, image: &GpuHandle<I>, access_type: AccessType) -> (r: Result<(), PassError>)
        ensures
            self.presents() ==> r == Err::<(), PassError>(PassError::PresentWithDraws),
            !self.presents() && self.writes_image(image.index()) ==> r == Err::<(), PassError>(
                PassError::AlreadyWritten,
            ),
            !self.presents() && !self.writes_image(image.index()) && !is_attachment_access(access_type) ==> r == Err::<
                (),
                PassError,
            >(PassError::InvalidDrawAccess(access_type)),
            !self.presents() && !self.writes_image(image.index()) && is_attachment_access(access_type) ==> r is Ok,
    {
        if self.present_to_swapchain {
            return Err(PassError::PresentWithDraws);
        }
        if self.already_written(image) {
            return Err(PassError::AlreadyWritten);
        }
        if attachment_access_allowed(access_type) {
            Ok(())
        } else {
            Err(PassError::InvalidDrawAccess(access_type))
        }
    }

    fn already_written(&self, image: &GpuHandle<I>) -> (w: bool)
        ensures
            w == self.writes_image(image.index()),
    {
        let mut i: usize = 0;
        while i < self.outputs.len()
            invariant
                i <= self.outputs@.len(),
                forall|k: int|
                    0 <= k < i ==> !(#[trigger] self.outputs@[k] matches Output::WriteImage(h, _) && h.index()
                        == image.index()),
            decreases self.outputs@.len() - i,
        {
            match &self.outputs[i] {
                Output::WriteImage(existing, _) => {
                    if existing.position() == image.position() {
                        assert(self.output_list()[i as int] matches Output::WriteImage(h, _) && h.index() == image.index());
                        return true;
                    }
                },
                _ => {},
            }
            i = i + 1;
        }
        false
    }

    /// Whether the pass may present to the swapchain: it must draw to no
    /// image.
    pub fn present_check(&self) -> (r: Result<(), PassError>)
        ensures
            r is Ok <==> !self.draws(),
            r is Err ==> r == Err::<(), PassError>(PassError::PresentWithDraws),
    {
        let mut i: usize = 0;
        while i < self.outputs.len()
            invariant
                i <= self.outputs@.len(),
                forall|k: int| 0 <= k < i ==> !(#[trigger] self.outputs@[k] is DrawImage),
            decreases self.outputs@.len() - i,
        {
            match &self.outputs[i] {
                Output::DrawImage(_, _) => {
                    assert(self.output_list()[i as int] is DrawImage);
                    return Err(PassError::PresentWithDraws);
                },
                _ => {},
            }
            i = i + 1;
        }
        Ok(())
    }

    /// Declares a read of `image` with `access_type`.
    pub fn read_image(self, image: &GpuHandle<I>, access_type: AccessType) -> (p: Self)
        requires
            !self.reads_image(image.index()),
            is_image_read_access(access_type),
        ensures
            p.input_list() == self.input_list().push(Input::ReadImage(*image, access_type)),
            p.output_list() == self.output_list(),
            p.presents() == self.presents(),
    {
        proof {
            use_type_invariant(&self);
        }
        let PassIo { mut inputs, outputs, present_to_swapchain } = self;
        inputs.push(Input::ReadImage(image.clone(), access_type));
        PassIo { inputs, outputs, present_to_swapchain }
    }

    /// Declares a write of `image` with `access_type`.
    pub fn write_image(self, image: &GpuHandle<I>, access_type: AccessType) -> (p: Self)
        requires
            !self.writes_image(image.index()),
            is_image_write_access(access_type),
        ensures
            p.input_list() == self.input_list(),
            p.output_list() == self.output_list().push(Output::WriteImage(*image, access_type)),
            p.presents() == self.presents(),
    {
        proof {
            use_type_invariant(&self);
        }
        let PassIo { inputs, mut outputs, present_to_swapchain } = self;
        outputs.push(Output::WriteImage(image.clone(), access_type));
        PassIo { inputs, outputs, present_to_swapchain }
    }

    /// Declares a draw to `image` as an attachment configured by
    /// `attachment_config`.
    pub fn draw_image(self, image: &GpuHandle<I>, attachment_config: AttachmentConfig) -> (p: Self)
        requires
            !self.presents(),
            !self.writes_image(image.index()),
            is_attachment_access(attachment_config.access),
        ensures
            p.input_list() == self.input_list(),
            p.output_list() == self.output_list().push(Output::DrawImage(*image, attachment_config)),
            p.presents() == self.presents(),
    {
        proof {
            use_type_invariant(&self);
        }
        let PassIo { inputs, mut outputs, present_to_swapchain } = self;
        outputs.push(Output::DrawImage(image.clone(), attachment_config));
        PassIo { inputs, outputs, present_to_swapchain }
    }

    /// Declares a read of the storage buffer `buffer`.
    pub fn read_buffer(self, buffer: ErasedHandle, access_type: AccessType) -> (p: Self)
        ensures
            p.input_list() == self.input_list().push(Input::ReadStorageBuffer(buffer, access_type)),
            p.output_list() == self.output_list(),
            p.presents() == self.presents(),
    {
        proof {
            use_type_invariant(&self);
        }
        let PassIo { mut inputs, outputs, present_to_swapchain } = self;
        inputs.push(Input::ReadStorageBuffer(buffer, access_type));
        PassIo { inputs, outputs, present_to_swapchain }
    }

    /// Declares a write of the storage buffer `buffer`.
    pub fn write_buffer(self, buffer: ErasedHandle, access_type: AccessType) -> (p: Self)
        ensures
            p.input_list() == self.input_list(),
            p.output_list() == self.output_list().push(Output::WriteStorageBuffer(buffer, access_type)),
            p.presents() == self.presents(),
    {
        proof {
            use_type_invariant(&self);
        }
        let PassIo { inputs, mut outputs, present_to_swapchain } = self;
        outputs.push(Output::WriteStorageBuffer(buffer, access_type));
        PassIo { inputs, outputs, present_to_swapchain }
    }

    /// Marks the pass as presenting to the swapchain; it must draw to no image.
    pub fn present(self) -> (p: Self)
        requires
            !self.draws(),
        ensures
            p.input_list() == self.input_list(),
            p.output_list() == self.output_list(),
            p.presents(),
    {
        let PassIo { inputs, outputs, present_to_swapchain: _ } = self;
        PassIo { inputs, outputs, present_to_swapchain: true }
    }

    /// Whether the pass presents to the swapchain; a pass that does draws
    /// to no image.
    pub fn presents_to_swapchain(&self) -> (b: bool)
        ensures
            b == self.presents(),
            b ==> !self.draws(),
    {
        proof {
            use_type_invariant(self);
        }
        self.present_to_swapchain
    }

    /// The images the pass uses, with their accesses: its reads, then its
    /// writes and draws, each in declaration order.
    pub fn image_accesses(&self) -> (uses: Vec<(usize, AccessType)>)
        ensures
            uses@ == named_images(self.input_list().map_values(|u: Input<I>| input_image(u))) + named_images(
                self.output_list().map_values(|u: Output<I>| output_image(u)),
            ),
    {
        let mut uses: Vec<(usize, AccessType)> = Vec::new();
        let mut i: usize = 0;
        while i < self.inputs.len()
            invariant
                i <= self.inputs@.len(),
                uses@ == named_images(self.inputs@.take(i as int).map_values(|u: Input<I>| input_image(u))),
            decreases self.inputs@.len() - i,
        {
            let ghost pre = self.inputs@.take(i as int).map_values(|u: Input<I>| input_image(u));
            let ghost post = self.inputs@.take(i + 1).map_values(|u: Input<I>| input_image(u));
            proof {
                assert(post.drop_last() =~= pre);
                assert(post.last() == input_image(self.inputs@[i as int]));
            }
            match &self.inputs[i] {
                Input::ReadImage(h, a) => {
                    uses.push((h.position(), *a));
                },
                Input::ReadStorageBuffer(_, _) => {},
            }
            i = i + 1;
        }
        proof {
            assert(self.inputs@.take(self.inputs@.len() as int) == self.inputs@);
        }
        let ghost from_inputs = uses@;
        let mut j: usize = 0;
        while j < self.outputs.len()
            invariant
                j <= self.outputs@.len(),
                uses@ == from_inputs + named_images(self.outputs@.take(j as int).map_values(|u: Output<I>| output_image(u))),
            decreases self.outputs@.len() - j,
        {
            let ghost pre = self.outputs@.take(j as int).map_values(|u: Output<I>| output_image(u));
            let ghost post = self.outputs@.take(j + 1).map_values(|u: Output<I>| output_image(u));
            proof {
                assert(post.drop_last() =~= pre);
                assert(post.last() == output_image(self.outputs@[j as int]));
            }
            match &self.outputs[j] {
                Output::WriteImage(h, a) => {
                    uses.push((h.position(), *a));
                },
                Output::DrawImage(h, config) => {
                    uses.push((h.position(), config.access));
                },
                Output::WriteStorageBuffer(_, _) => {},
            }
            proof {
                assert(uses@ =~= from_inputs + named_images(post));
            }
            j = j + 1;
        }
        proof {
            assert(self.outputs@.take(self.outputs@.len() as int) == self.outputs@);
        }
        uses
    }
}

} // verus!
