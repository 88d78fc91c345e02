//! Core data structures and decision logic of the Hikari engine:
//! bit-mask iteration, an index-linked list, a frame-aged map, a bounded
//! cache, typed resource storage, bindless index allocation, borrow-flag
//! bookkeeping, barrier hazard analysis, render-graph validation and
//! barrier and render-pass planning, descriptor and pipeline state while recording
//! commands, pipeline-layout push-constant ranges, device, format and
//! swapchain choices, validation-message log levels, frames in flight,
//! deferred deletion and system scheduling.
use vstd::prelude::*;

pub mod bits;
pub mod cache_map;
pub mod intrusive_linked_list;
pub mod temporary_map;
pub mod storage;
pub mod swapchain;
pub mod shader;
pub mod shader_layout;
pub mod barrier;
pub mod graph;
pub mod bindless;
pub mod borrow;
pub mod command;
pub mod config;
pub mod delete;
pub mod descriptor;
pub mod debug_message;
pub mod device;
pub mod error;
pub mod features;
pub mod format;
pub mod frame;
pub mod hash;
pub mod pass;
pub mod renderpass;
pub mod resources;
pub mod schedule;

verus! {

} // verus!
