use bonfire::pipeline::{
    descriptor_set_count, find_binding_conflict, find_unsupported_binding, merge_descriptor_bindings,
    plan_set_layouts, set_layout_bindings, CompiledShader,
    DescriptorBinding, PipelineError, ShaderDesc, ShaderStage, DESCRIPTOR_TYPE_UNIFORM_BUFFER,
};

fn b(set: u32, binding: u32, ty: u32, name: &str) -> DescriptorBinding {
    DescriptorBinding { set, binding, ty, name: name.to_string() }
}

fn slots(v: &[DescriptorBinding]) -> Vec<(u32, u32, u32, String)> {
    v.iter().map(|d| (d.set, d.binding, d.ty, d.name.clone())).collect()
}

const UBO: u32 = DESCRIPTOR_TYPE_UNIFORM_BUFFER;

#[test]
fn shader_desc_uses_main() {
    let d = ShaderDesc::new(CompiledShader { name: "triangle_vert".to_string(), spirv: vec![3, 2, 35, 7] }, ShaderStage::Vertex);
    assert_eq!(d.name, "triangle_vert");
    assert_eq!(d.spirv, vec![3, 2, 35, 7]);
    assert_eq!(d.stage, ShaderStage::Vertex);
    assert_eq!(d.entry_point, "main");
}

#[test]
fn merge_keeps_each_slot_once() {
    let all = vec![b(0, 0, UBO, "camera"), b(1, 2, UBO, "light"), b(0, 0, UBO, "camera"), b(0, 1, UBO, "model")];
    assert_eq!(find_binding_conflict(&all), None);
    let merged = merge_descriptor_bindings(&all);
    assert_eq!(
        slots(&merged),
        vec![
            (0, 0, UBO, "camera".to_string()),
            (1, 2, UBO, "light".to_string()),
            (0, 1, UBO, "model".to_string()),
        ]
    );
    assert_eq!(merge_descriptor_bindings(&vec![]).len(), 0);
}

#[test]
fn merge_reports_first_conflict() {
    let all = vec![b(0, 0, UBO, "camera"), b(1, 0, UBO, "a"), b(1, 0, UBO, "b"), b(0, 0, 7, "camera")];
    assert_eq!(find_binding_conflict(&all), Some(PipelineError::BindingConflict { set: 1, binding: 0 }));
    let all = vec![b(0, 0, UBO, "camera"), b(0, 0, 7, "camera")];
    assert_eq!(find_binding_conflict(&all), Some(PipelineError::BindingConflict { set: 0, binding: 0 }));
}

#[test]
fn set_count_and_layouts() {
    assert_eq!(descriptor_set_count(&vec![]), 0);
    let merged = vec![b(0, 0, UBO, "camera"), b(2, 3, UBO, "light"), b(2, 1, UBO, "shadow")];
    assert_eq!(descriptor_set_count(&merged), 3);
    assert_eq!(descriptor_set_count(&vec![b(u32::MAX, 0, UBO, "x")]), u32::MAX as u64 + 1);
    assert_eq!(set_layout_bindings(&merged, 0), vec![0]);
    assert_eq!(set_layout_bindings(&merged, 1), Vec::<u32>::new());
    assert_eq!(set_layout_bindings(&merged, 2), vec![3, 1]);
    let with_sampler = vec![b(0, 0, UBO, "camera"), b(0, 4, 1, "albedo")];
    assert_eq!(
        find_unsupported_binding(&with_sampler),
        Some(PipelineError::UnsupportedDescriptorType { set: 0, binding: 4, ty: 1 })
    );
    assert_eq!(find_unsupported_binding(&merged), None);
    assert_eq!(set_layout_bindings(&with_sampler, 1), Vec::<u32>::new());
}

#[test]
fn layout_plan_skips_empty_sets() {
    let merged = vec![b(2, 3, UBO, "light"), b(0, 0, UBO, "camera"), b(2, 1, UBO, "shadow")];
    let plans = plan_set_layouts(&merged);
    let summary: Vec<(u32, Vec<u32>)> = plans.iter().map(|p| (p.set, p.bindings.clone())).collect();
    assert_eq!(summary, vec![(0, vec![0]), (2, vec![3, 1])]);
    assert!(plan_set_layouts(&vec![]).is_empty());
    let bad = vec![b(0, 0, UBO, "camera"), b(1, 5, 7, "data")];
    assert_eq!(
        find_unsupported_binding(&bad),
        Some(PipelineError::UnsupportedDescriptorType { set: 1, binding: 5, ty: 7 })
    );
}
