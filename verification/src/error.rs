//! Errors of resource creation and of device capabilities.
use vstd::prelude::*;

verus! {

/// A GPU resource could not be created.
#[derive(Clone, Copy, Debug, PartialEq, Eq)]
pub enum ResourceAllocationError {
    VertexArray,
    Buffer,
    Texture,
    /// A framebuffer, with the reason.
    Framebuffer(&'static str),
}

/// The device lacks a feature that was asked for.
#[derive(Clone, Copy, Debug, PartialEq, Eq, Structural)]
pub enum UnsupportedFeatureError {
    AnisotropicFiltering,
}

} // verus!
