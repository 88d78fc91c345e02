use hikari::shader::{ShaderCode, ShaderData, ShaderDataType, ShaderProgramBuilder, ShaderStage};

#[test]
fn data_type_sizes() {
    assert_eq!(ShaderDataType::Float.size(), 4);
    assert_eq!(ShaderDataType::Vec2f.size(), 8);
    assert_eq!(ShaderDataType::Vec3f.size(), 12);
    assert_eq!(ShaderDataType::Vec4f.size(), 16);
    assert_eq!(ShaderDataType::Vec3f.shape(), 3);
}

#[test]
fn stage_bits_and_names() {
    assert_eq!(ShaderStage::Vertex.vulkan_stage_bits(), 0x1);
    assert_eq!(ShaderStage::Fragment.vulkan_stage_bits(), 0x10);
    assert_eq!(ShaderStage::Compute.vulkan_stage_bits(), 0x20);
    assert_eq!(ShaderStage::TessEvaluation.name(), "TessEvaluation");
}

fn glsl(src: &str) -> ShaderCode<'static> {
    ShaderCode { entry_point: "main", data: ShaderData::Glsl(src.to_string()) }
}

#[test]
fn vertex_and_fragment_sets_both_stages() {
    let v = glsl("vertex");
    let f = glsl("fragment");
    let b: ShaderProgramBuilder = ShaderProgramBuilder::vertex_and_fragment("pbr", &v, &f);
    assert_eq!(b.name(), "pbr");
    let stages = b.stages();
    assert_eq!(stages.len(), 2);
    assert!(stages.iter().any(|(s, _, d)| *s == ShaderStage::Vertex && d.is_empty()));
    assert!(stages.iter().any(|(s, _, _)| *s == ShaderStage::Fragment));
}

#[test]
fn setting_a_stage_again_replaces_it() {
    let b = ShaderProgramBuilder::new("compute".to_string())
        .with_stage(ShaderStage::Compute, glsl("first"), &["A"])
        .with_stage(ShaderStage::Compute, glsl("second"), &["B", "C"]);
    let stages = b.stages();
    assert_eq!(stages.len(), 1);
    let (stage, code, defines) = &stages[0];
    assert_eq!(*stage, ShaderStage::Compute);
    match &code.data {
        ShaderData::Glsl(text) => assert_eq!(text, "second"),
        ShaderData::Spirv(_) => panic!("expected glsl"),
    }
    assert_eq!(defines, &vec!["B", "C"]);
}
