use gui_gpu::gui_gpu::demo::{
    demo_sequence_descriptor, demo_sequence_from_ids, plan_render_resources, VIEWPORT_SIZE_X,
    VIEWPORT_SIZE_Y,
};
use gui_gpu::gui_gpu::id::Id;
use gui_gpu::gui_gpu::plan::{bind_group_entries, bind_group_layout_entries, sequence_is_plannable, BindingResource};
use gui_gpu::gui_gpu::value::ValueType;
use gui_gpu::gui_gpu::PassSequenceDescriptor;

fn pass_name(d: &PassSequenceDescriptor, i: usize) -> String {
    d.passes[&d.pass_instances[i].pass_id.0].name.clone()
}

#[test]
fn demo_runs_four_passes_in_order() {
    let d = demo_sequence_descriptor();
    assert_eq!(d.passes.len(), 4);
    assert_eq!(d.shared_buffers.len(), 4);
    let names: Vec<String> = (0..4).map(|i| pass_name(&d, i)).collect();
    assert_eq!(
        names,
        vec!["Pixel coordinates to complex", "Complex function", "Complex to polar", "Polar to color"]
    );
    let paths: Vec<String> = d
        .pass_instances
        .iter()
        .map(|inst| d.passes[&inst.pass_id.0].shader_source_path.clone())
        .collect();
    assert_eq!(
        paths,
        vec![
            "shaders/pixel_to_complex.wgsl",
            "shaders/complex_function.wgsl",
            "shaders/complex_to_polar.wgsl",
            "shaders/polar_to_color.wgsl",
        ]
    );
}

#[test]
fn demo_paints_the_color_buffer() {
    let d = demo_sequence_descriptor();
    let painted = &d.shared_buffers[&d.painted_buffer_id.0];
    assert_eq!(painted.name, "Color buffer");
    assert_eq!(painted.element_type, ValueType::RgbColor);
    let last = &d.pass_instances[3];
    assert_eq!(last.storage_buffer_bindings[1].buffer_id, d.painted_buffer_id);
}

#[test]
fn demo_chains_buffers_between_passes() {
    let d = demo_sequence_descriptor();
    let i = &d.pass_instances;
    assert_eq!(i[0].storage_buffer_bindings[0].buffer_id, i[1].storage_buffer_bindings[0].buffer_id);
    assert_eq!(i[1].storage_buffer_bindings[1].buffer_id, i[2].storage_buffer_bindings[0].buffer_id);
    assert_eq!(i[2].storage_buffer_bindings[1].buffer_id, i[3].storage_buffer_bindings[0].buffer_id);
}

#[test]
fn demo_binds_buffers_of_declared_types() {
    let d = demo_sequence_descriptor();
    for inst in &d.pass_instances {
        let pass = &d.passes[&inst.pass_id.0];
        assert_eq!(inst.storage_buffer_bindings.len(), pass.storage_buffer_descriptors.len());
        for (b, s) in inst.storage_buffer_bindings.iter().zip(pass.storage_buffer_descriptors.iter()) {
            assert_eq!(b.binding, s.binding);
            assert_eq!(d.shared_buffers[&b.buffer_id.0].element_type, s.element_type);
        }
        let entries = bind_group_entries(pass, inst);
        let layout = bind_group_layout_entries(pass);
        let bindings: Vec<u32> = entries.iter().map(|e| e.binding).collect();
        let layout_bindings: Vec<u32> = layout.iter().map(|e| e.binding).collect();
        assert_eq!(bindings, layout_bindings);
    }
}

#[test]
fn demo_keys_match_ids() {
    let d = demo_sequence_descriptor();
    for (k, p) in &d.passes {
        assert_eq!(*k, p.id.0);
    }
    for (k, b) in &d.shared_buffers {
        assert_eq!(*k, b.id.0);
    }
}

#[test]
fn demo_is_plannable_for_its_viewport() {
    let d = demo_sequence_descriptor();
    assert!(sequence_is_plannable(&d, VIEWPORT_SIZE_X, VIEWPORT_SIZE_Y));
}

#[test]
fn render_plan_of_demo() {
    let plan = plan_render_resources();
    assert_eq!((VIEWPORT_SIZE_X, VIEWPORT_SIZE_Y), (2400, 1600));
    assert_eq!(plan.sequence.viewport_size_x, 2400);
    assert_eq!(plan.sequence.viewport_size_y, 1600);
    assert_eq!(plan.sequence.pass_instances.len(), 4);
    assert_eq!(plan.sequence.passes.len(), 4);
    assert_eq!(plan.sequence.painted_buffer_id, plan.descriptor.painted_buffer_id);
    let painted = plan
        .sequence
        .shared_buffers
        .iter()
        .find(|b| b.id == plan.descriptor.painted_buffer_id)
        .unwrap();
    assert_eq!(painted.size, 2400 * 1600 * 16);
    let first = &plan.sequence.pass_instances[0];
    assert_eq!(first.bind_group_entries.len(), 2);
    assert_eq!(first.bind_group_entries[0].resource, BindingResource::StandardUniformBuffer);
    assert!(first.uniform_values.is_empty());
}


#[test]
fn demo_from_ids_uses_the_given_ids() {
    let d = demo_sequence_from_ids((Id(1), Id(2), Id(3), Id(4)), (Id(11), Id(12), Id(13), Id(14)));
    let mut pass_keys: Vec<u64> = d.passes.keys().copied().collect();
    pass_keys.sort();
    assert_eq!(pass_keys, vec![1, 2, 3, 4]);
    let mut buffer_keys: Vec<u64> = d.shared_buffers.keys().copied().collect();
    buffer_keys.sort();
    assert_eq!(buffer_keys, vec![11, 12, 13, 14]);
    let pass_ids: Vec<Id> = d.pass_instances.iter().map(|i| i.pass_id).collect();
    assert_eq!(pass_ids, vec![Id(1), Id(2), Id(3), Id(4)]);
    let bindings: Vec<Vec<(u32, Id)>> = d
        .pass_instances
        .iter()
        .map(|i| i.storage_buffer_bindings.iter().map(|b| (b.binding, b.buffer_id)).collect())
        .collect();
    assert_eq!(
        bindings,
        vec![
            vec![(1, Id(11))],
            vec![(1, Id(11)), (2, Id(12))],
            vec![(1, Id(12)), (2, Id(13))],
            vec![(1, Id(13)), (2, Id(14))],
        ]
    );
    assert_eq!(d.painted_buffer_id, Id(14));
    assert_eq!(d.passes[&2].name, "Complex function");
    assert_eq!(d.shared_buffers[&13].name, "Polar buffer");
}

#[test]
fn demo_from_colliding_ids_keeps_last_inserted() {
    // passes are inserted pixel-to-complex, complex-to-polar, polar-to-color,
    // complex function; buffers complex, complex 2, polar, color
    let d = demo_sequence_from_ids((Id(5), Id(5), Id(5), Id(5)), (Id(7), Id(7), Id(7), Id(7)));
    assert_eq!(d.passes.len(), 1);
    assert_eq!(d.passes[&5].name, "Complex function");
    assert_eq!(d.shared_buffers.len(), 1);
    assert_eq!(d.shared_buffers[&7].name, "Color buffer");
    assert_eq!(d.pass_instances.len(), 4);
    assert_eq!(d.painted_buffer_id, Id(7));
}
