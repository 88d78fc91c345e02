use hikari::error::{ResourceAllocationError, UnsupportedFeatureError};
use hikari::hash::quick_hash;

#[test]
fn quick_hash_is_deterministic() {
    assert_eq!(quick_hash("render pass"), quick_hash("render pass"));
    assert_eq!(quick_hash(12u64), quick_hash(12u64));
    assert_ne!(quick_hash("gbuffer"), quick_hash("lighting"));
}

#[test]
fn quick_hash_is_the_fx_hash() {
    assert_eq!(quick_hash("abc"), fxhash::hash("abc") as u64);
}

#[test]
fn error_values() {
    assert_eq!(ResourceAllocationError::Framebuffer("no views"), ResourceAllocationError::Framebuffer("no views"));
    assert_ne!(ResourceAllocationError::Buffer, ResourceAllocationError::Texture);
    assert_eq!(UnsupportedFeatureError::AnisotropicFiltering, UnsupportedFeatureError::AnisotropicFiltering);
}
