use hikari::command::compute::PipelineContext as ComputePipelineContext;
use hikari::command::render::{PassRecordInfo, PipelineContext as RenderPipelineContext};
use hikari::command::render::PipelineState;
use hikari::command::{update_shader, ShaderKey};

fn shader(hash: u64, set_layouts: [u64; 4]) -> ShaderKey {
    ShaderKey { hash, set_layouts }
}

fn state() -> PipelineState {
    PipelineState { input_layout: 1, primitive_topology: 3, depth_stencil_state: 2, rasterizer_state: 4, blend_state: 5 }
}

#[test]
fn binding_a_new_shader_dirties_the_pipeline() {
    let mut current = None;
    let mut dirty_sets = 0b0001;
    assert!(update_shader(&mut current, shader(42, [1, 2, 3, 4]), &mut dirty_sets));
    assert_eq!(current.unwrap().hash, 42);
    assert_eq!(dirty_sets, 0b0001);
    assert!(!update_shader(&mut current, shader(42, [9, 9, 9, 9]), &mut dirty_sets));
    assert_eq!(dirty_sets, 0b0001);
    // Same layouts: the pipeline changes, the bound sets stay valid.
    assert!(update_shader(&mut current, shader(7, [9, 9, 9, 9]), &mut dirty_sets));
    assert_eq!(current.unwrap().hash, 7);
    assert_eq!(dirty_sets, 0b0001);
    // Set 2 is the first whose layout differs: it and every later set are dirty.
    assert!(update_shader(&mut current, shader(8, [9, 9, 5, 9]), &mut dirty_sets));
    assert_eq!(dirty_sets, 0b0001 | !0b11);
    let mut dirty = 0;
    let mut current = Some(shader(1, [1, 2, 3, 4]));
    assert!(update_shader(&mut current, shader(2, [0, 2, 3, 4]), &mut dirty));
    assert_eq!(dirty, u32::MAX);
}

#[test]
fn render_context_tracks_pipeline_dirtiness() {
    let mut ctx = RenderPipelineContext::new(state());
    assert!(!ctx.pipeline_dirty);
    let mut dirty_sets = 0;
    ctx.set_shader(shader(1, [0; 4]), &mut dirty_sets);
    assert!(ctx.pipeline_dirty);
    ctx.set_shader(shader(1, [0; 4]), &mut dirty_sets);
    assert!(!ctx.pipeline_dirty);
    let info = PassRecordInfo { framebuffer_width: 800, framebuffer_height: 600 };
    assert_eq!(info.framebuffer_width * info.framebuffer_height, 480000);
}

#[test]
fn compute_context_hands_back_the_previous_shader() {
    let mut ctx = ComputePipelineContext::new();
    assert_eq!(ctx.set_shader(3), None);
    assert_eq!(ctx.set_shader(4), Some(3));
    assert_eq!(ctx.shader, Some(4));
}

#[test]
fn compute_pipeline_rebinds_only_on_layout_change() {
    let mut ctx = ComputePipelineContext::new();
    ctx.bind_shader(10, 1, None);
    assert!(ctx.pipeline_dirty);
    assert_eq!(ctx.flush(), Some(10));
    assert!(!ctx.pipeline_dirty);
    assert_eq!(ctx.flush(), None);
    // A different shader with the same layout keeps the bound pipeline.
    ctx.bind_shader(11, 1, Some(1));
    assert!(!ctx.pipeline_dirty);
    assert_eq!(ctx.shader, Some(11));
    ctx.bind_shader(12, 2, Some(1));
    assert_eq!(ctx.flush(), Some(12));
}

#[test]
fn render_pipeline_flush_clears_dirty_flag() {
    let mut ctx = RenderPipelineContext::new(state());
    let mut dirty_sets: u32 = 0;
    ctx.set_shader(shader(5, [0; 4]), &mut dirty_sets);
    assert!(ctx.flush());
    assert!(!ctx.flush());
    ctx.set_shader(shader(5, [0; 4]), &mut dirty_sets);
    assert!(!ctx.flush());
    ctx.set_shader(shader(6, [0; 4]), &mut dirty_sets);
    assert!(ctx.flush());
}

#[test]
fn render_pipeline_state_changes_dirty_the_pipeline() {
    let mut ctx = RenderPipelineContext::new(state());
    let mut dirty_sets = 0;
    ctx.set_shader(shader(1, [0; 4]), &mut dirty_sets);
    assert!(ctx.flush());
    ctx.set_vertex_input_layout(11);
    assert_eq!(ctx.get_pipeline_state().input_layout, 11);
    assert!(ctx.flush());
    ctx.set_primitive_topology(4);
    assert!(ctx.flush());
    ctx.set_depth_stencil_state(12);
    assert!(ctx.flush());
    ctx.set_rasterizer_state(13);
    assert!(ctx.flush());
    ctx.set_blend_state(14);
    assert!(ctx.flush());
    ctx.set_pipeline_state(state());
    assert_eq!(*ctx.get_pipeline_state(), state());
    assert!(ctx.flush());
    assert!(!ctx.flush());
}
