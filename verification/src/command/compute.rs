//! The shader state of a compute pass.
use vstd::prelude::*;

verus! {

/// The shader bound in a compute pass and whether the pipeline must be
/// bound again before the next dispatch.
pub struct PipelineContext {
    pub shader: Option<u64>,
    pub pipeline_dirty: bool,
}

impl PipelineContext {
    /// No shader bound, nothing to rebind.
    pub fn new() -> (c: Self)
        ensures
            c.shader is None,
            !c.pipeline_dirty,
    {
        PipelineContext { shader: None, pipeline_dirty: false }
    }

    /// Binds the shader with hash `shader`, returning the one bound before.
    pub fn set_shader(&mut self, shader: u64) -> (previous: Option<u64>)
        ensures
            previous == old(self).shader,
            final(self).shader == Some(shader),
            final(self).pipeline_dirty == old(self).pipeline_dirty,
    {
        let previous = self.shader;
        self.shader = Some(shader);
        previous
    }

    /// Binds the shader with hash `shader`, whose pipeline layout is `layout`;
    /// `layout_of_previous` is the layout of the shader bound before, if any.
    /// The pipeline must be bound again unless the previous shader had the
    /// same layout; otherwise the flag stays as it was.
    pub fn bind_shader(&mut self, shader: u64, layout: u64, layout_of_previous: Option<u64>)
        ensures
            final(self).shader == Some(shader),
            final(self).pipeline_dirty == (old(self).pipeline_dirty || layout_of_previous != Some(layout)),
    {
        self.set_shader(shader);
        match layout_of_previous {
            Some(previous) => {
                if previous == layout {
                    return;
                }
            },
            None => {},
        }
        self.pipeline_dirty = true;
    }

    /// Before a dispatch: the shader whose pipeline must be bound now, if the
    /// pipeline is out of date and a shader is bound. Afterwards the pipeline
    /// counts as bound.
    pub fn flush(&mut self) -> (bind: Option<u64>)
        ensures
            bind == (if old(self).pipeline_dirty { old(self).shader } else { None }),
            final(self).shader == old(self).shader,
            !final(self).pipeline_dirty,
    {
        if self.pipeline_dirty {
            let bind = self.shader;
            self.pipeline_dirty = false;
            bind
        } else {
            None
        }
    }
}

} // verus!
