//! The shader and pipeline state of a render pass.
use vstd::prelude::*;
use crate::command::{dirty_after_switch, update_shader, ShaderKey};

verus! {

/// The size of the framebuffer a render pass records into.
#[derive(Clone, Copy, Debug, PartialEq, Eq, Structural)]
pub struct PassRecordInfo {
    pub framebuffer_width: u32,
    pub framebuffer_height: u32,
}

/// The fixed-function state a graphics pipeline is built with, each part
/// known by the key (hash) of its description.
#[derive(Clone, Copy, Debug, PartialEq, Eq, Structural)]
pub struct PipelineState {
    pub input_layout: u64,
    pub primitive_topology: i32,
    pub depth_stencil_state: u64,
    pub rasterizer_state: u64,
    pub blend_state: u64,
}

/// The shader and pipeline state bound in a render pass, and whether the
/// pipeline must be bound again before the next draw.
pub struct PipelineContext {
    pub shader: Option<ShaderKey>,
    pub pipeline_state: PipelineState,
    pub pipeline_dirty: bool,
}

impl PipelineContext {
    /// No shader bound, the given pipeline state, nothing to rebind.
    pub fn new(pipeline_state: PipelineState) -> (c: Self)
        ensures
            c.shader is None,
            c.pipeline_state == pipeline_state,
            !c.pipeline_dirty,
    {
        PipelineContext { shader: None, pipeline_state, pipeline_dirty: false }
    }

    /// Binds the shader `new`; the pipeline must be bound again unless a
    /// shader with the same hash was bound already, and the descriptor sets
    /// from the first one whose layout changed on are marked dirty.
    pub fn set_shader(&mut self, new: ShaderKey, dirty_sets: &mut u32)
        ensures
            final(self).shader == Some(new),
            final(self).pipeline_state == old(self).pipeline_state,
            final(self).pipeline_dirty == !(old(self).shader matches Some(s) && s.hash == new.hash),
            *final(dirty_sets) == (match old(self).shader {
                Some(s) => if s.hash == new.hash {
                    *old(dirty_sets)
                } else {
                    dirty_after_switch(*old(dirty_sets), s.set_layouts@, new.set_layouts@)
                },
                None => *old(dirty_sets),
            }),
    {
        self.pipeline_dirty = update_shader(&mut self.shader, new, dirty_sets);
    }

    /// Replaces the whole pipeline state; the pipeline must be bound again.
    pub fn set_pipeline_state(&mut self, pipeline_state: PipelineState)
        ensures
            final(self).pipeline_state == pipeline_state,
            final(self).shader == old(self).shader,
            final(self).pipeline_dirty,
    {
        self.pipeline_state = pipeline_state;
        self.pipeline_dirty = true;
    }

    /// Sets the vertex input layout; the pipeline must be bound again.
    pub fn set_vertex_input_layout(&mut self, input_layout: u64)
        ensures
            final(self).pipeline_state == (PipelineState { input_layout, ..old(self).pipeline_state }),
            final(self).shader == old(self).shader,
            final(self).pipeline_dirty,
    {
        self.pipeline_state.input_layout = input_layout;
        self.pipeline_dirty = true;
    }

    /// Sets the primitive topology; the pipeline must be bound again.
    pub fn set_primitive_topology(&mut self, primitive_topology: i32)
        ensures
            final(self).pipeline_state == (PipelineState { primitive_topology, ..old(self).pipeline_state }),
            final(self).shader == old(self).shader,
            final(self).pipeline_dirty,
    {
        self.pipeline_state.primitive_topology = primitive_topology;
        self.pipeline_dirty = true;
    }

    /// Sets the depth/stencil state; the pipeline must be bound again.
    pub fn set_depth_stencil_state(&mut self, depth_stencil_state: u64)
        ensures
            final(self).pipeline_state == (PipelineState { depth_stencil_state, ..old(self).pipeline_state }),
            final(self).shader == old(self).shader,
            final(self).pipeline_dirty,
    {
        self.pipeline_state.depth_stencil_state = depth_stencil_state;
        self.pipeline_dirty = true;
    }

    /// Sets the rasterizer state; the pipeline must be bound again.
    pub fn set_rasterizer_state(&mut self, rasterizer_state: u64)
        ensures
            final(self).pipeline_state == (PipelineState { rasterizer_state, ..old(self).pipeline_state }),
            final(self).shader == old(self).shader,
            final(self).pipeline_dirty,
    {
        self.pipeline_state.rasterizer_state = rasterizer_state;
        self.pipeline_dirty = true;
    }

    /// Sets the blend state; the pipeline must be bound again.
    pub fn set_blend_state(&mut self, blend_state: u64)
        ensures
            final(self).pipeline_state == (PipelineState { blend_state, ..old(self).pipeline_state }),
            final(self).shader == old(self).shader,
            final(self).pipeline_dirty,
    {
        self.pipeline_state.blend_state = blend_state;
        self.pipeline_dirty = true;
    }

    /// The pipeline state.
    pub fn get_pipeline_state(&self) -> (p: &PipelineState)
        ensures
            *p == self.pipeline_state,
    {
        &self.pipeline_state
    }

    /// Before a draw: whether the pipeline must be bound now. Afterwards the
    /// pipeline counts as bound.
    pub fn flush(&mut self) -> (bind: bool)
        ensures
            bind == old(self).pipeline_dirty,
            final(self).shader == old(self).shader,
            final(self).pipeline_state == old(self).pipeline_state,
            !final(self).pipeline_dirty,
    {
        let bind = self.pipeline_dirty;
        self.pipeline_dirty = false;
        bind
    }
}

} // verus!
