use gui_gpu::gui_gpu::id::{Id, IdMap};
use gui_gpu::gui_gpu::plan::{
    bind_group_entries, bind_group_layout_entries, create_pass_uniform_values, paint_bind_group_entries,
    paint_bind_group_layout_entries, pass_instance_uniform_buffers, plan_pass_instances,
    plan_passes, plan_sequence, plan_shared_buffers, sequence_is_plannable, shared_buffer_size,
    BindGroupEntry, BindGroupLayoutEntry, BindingResource, BufferBindingKind, ShaderStage,
    UniformBufferPlan, STANDARD_UNIFORM_BUFFER_SIZE,
};
use gui_gpu::gui_gpu::value::{Value, ValueType};
use gui_gpu::gui_gpu::{
    PassDescriptor, PassInstanceDescriptor, PassSequenceDescriptor, PassStorageBufferBinding,
    PassStorageBufferDescriptor, PassUniformBufferDescriptor, SharedBufferDescriptor,
};

fn uniform(binding: u32, value_type: ValueType) -> PassUniformBufferDescriptor {
    PassUniformBufferDescriptor { binding, name: format!("u{}", binding), value_type }
}

fn storage(binding: u32, element_type: ValueType, writable: bool) -> PassStorageBufferDescriptor {
    PassStorageBufferDescriptor { binding, name: format!("s{}", binding), element_type, writable }
}

/// A pass with two uniforms (bindings 1, 2) and two storage buffers (3 read, 4 written).
fn sample_pass(id: u64) -> PassDescriptor {
    PassDescriptor {
        id: Id(id),
        shader_source_path: "shaders/sample.wgsl".to_string(),
        name: "Sample".to_string(),
        uniform_buffer_descriptors: vec![uniform(1, ValueType::Angle), uniform(2, ValueType::RgbaColor)],
        storage_buffer_descriptors: vec![
            storage(3, ValueType::Complex, false),
            storage(4, ValueType::RgbColor, true),
        ],
    }
}

fn sample_instance(pass: u64, input: u64, output: u64) -> PassInstanceDescriptor {
    PassInstanceDescriptor {
        pass_id: Id(pass),
        storage_buffer_bindings: vec![
            PassStorageBufferBinding { binding: 3, buffer_id: Id(input) },
            PassStorageBufferBinding { binding: 4, buffer_id: Id(output) },
        ],
    }
}

fn buffer(id: u64, element_type: ValueType) -> SharedBufferDescriptor {
    SharedBufferDescriptor { id: Id(id), name: format!("b{}", id), element_type }
}

fn sample_sequence() -> PassSequenceDescriptor {
    let mut passes: IdMap<PassDescriptor> = IdMap::new();
    passes.insert(10, sample_pass(10));
    passes.insert(11, sample_pass(11));
    let mut shared_buffers: IdMap<SharedBufferDescriptor> = IdMap::new();
    shared_buffers.insert(20, buffer(20, ValueType::Complex));
    shared_buffers.insert(21, buffer(21, ValueType::RgbColor));
    PassSequenceDescriptor {
        passes,
        shared_buffers,
        pass_instances: vec![sample_instance(11, 20, 21), sample_instance(10, 20, 21)],
        painted_buffer_id: Id(21),
    }
}

fn compute(binding: u32, kind: BufferBindingKind) -> BindGroupLayoutEntry {
    BindGroupLayoutEntry { binding, visibility: ShaderStage::Compute, kind }
}

#[test]
fn layout_starts_with_standard_uniform_then_uniforms_then_storage() {
    let entries = bind_group_layout_entries(&sample_pass(1));
    assert_eq!(
        entries,
        vec![
            compute(0, BufferBindingKind::Uniform),
            compute(1, BufferBindingKind::Uniform),
            compute(2, BufferBindingKind::Uniform),
            compute(3, BufferBindingKind::Storage { read_only: true }),
            compute(4, BufferBindingKind::Storage { read_only: false }),
        ]
    );
}

#[test]
fn layout_of_pass_without_buffers_has_only_standard_uniform() {
    let pass = PassDescriptor {
        id: Id(1),
        shader_source_path: String::new(),
        name: String::new(),
        uniform_buffer_descriptors: vec![],
        storage_buffer_descriptors: vec![],
    };
    assert_eq!(bind_group_layout_entries(&pass), vec![compute(0, BufferBindingKind::Uniform)]);
}

#[test]
fn instance_uniform_buffers_are_sized_by_value_type() {
    assert_eq!(
        pass_instance_uniform_buffers(&sample_pass(1)),
        vec![UniformBufferPlan { binding: 1, size: 4 }, UniformBufferPlan { binding: 2, size: 16 }]
    );
}

#[test]
fn instance_uniform_values_start_at_zero() {
    let values = create_pass_uniform_values(&sample_pass(1));
    assert_eq!(values.len(), 2);
    assert_eq!(values[0].binding, 1);
    assert_eq!(values[0].value, Value::Angle(0));
    assert_eq!(values[1].binding, 2);
    assert_eq!(values[1].value, Value::RgbaColor(0, 0, 0, 0));
}

#[test]
fn bind_group_binds_standard_instance_and_shared_buffers() {
    let entries = bind_group_entries(&sample_pass(1), &sample_instance(1, 20, 21));
    assert_eq!(
        entries,
        vec![
            BindGroupEntry { binding: 0, resource: BindingResource::StandardUniformBuffer },
            BindGroupEntry { binding: 1, resource: BindingResource::InstanceUniformBuffer(0) },
            BindGroupEntry { binding: 2, resource: BindingResource::InstanceUniformBuffer(1) },
            BindGroupEntry { binding: 3, resource: BindingResource::SharedBuffer(Id(20)) },
            BindGroupEntry { binding: 4, resource: BindingResource::SharedBuffer(Id(21)) },
        ]
    );
}

#[test]
fn bind_group_fills_layout_entry_by_entry() {
    let pass = sample_pass(1);
    let entries = bind_group_entries(&pass, &sample_instance(1, 20, 21));
    let layout = bind_group_layout_entries(&pass);
    assert_eq!(entries.len(), layout.len());
    for (e, l) in entries.iter().zip(layout.iter()) {
        assert_eq!(e.binding, l.binding);
        let shared = matches!(e.resource, BindingResource::SharedBuffer(_));
        assert_eq!(l.kind == BufferBindingKind::Uniform, !shared);
    }
}

#[test]
fn uniform_buffers_hold_uniform_values() {
    let pass = sample_pass(1);
    let values = create_pass_uniform_values(&pass);
    let buffers = pass_instance_uniform_buffers(&pass);
    assert_eq!(values.len(), buffers.len());
    assert_eq!(buffers[0].size, ValueType::Angle.size() as u64);
    assert_eq!(buffers[1].size, ValueType::RgbaColor.size() as u64);
    for (v, b) in values.iter().zip(buffers.iter()) {
        assert_eq!(v.binding, b.binding);
    }
}

#[test]
fn shared_buffer_holds_one_aligned_element_per_pixel() {
    assert_eq!(shared_buffer_size(2400, 1600, ValueType::Complex), 2400 * 1600 * 8);
    assert_eq!(shared_buffer_size(2400, 1600, ValueType::RgbColor), 2400 * 1600 * 16);
    assert_eq!(shared_buffer_size(3, 5, ValueType::Real), 60);
    assert_eq!(shared_buffer_size(0, 5, ValueType::RgbaColor), 0);
}

#[test]
fn shared_buffer_plans_cover_every_descriptor_once() {
    let d = sample_sequence();
    let mut plans = plan_shared_buffers(&d.shared_buffers, 10, 20);
    plans.sort_by_key(|p| p.id.0);
    assert_eq!(plans.len(), 2);
    assert_eq!((plans[0].id, plans[0].size), (Id(20), 10 * 20 * 8));
    assert_eq!((plans[1].id, plans[1].size), (Id(21), 10 * 20 * 16));
}

#[test]
fn pass_plans_cover_every_pass_once() {
    let d = sample_sequence();
    let mut plans = plan_passes(&d.passes);
    plans.sort_by_key(|p| p.id.0);
    assert_eq!(plans.len(), 2);
    assert_eq!(plans[0].id, Id(10));
    assert_eq!(plans[1].id, Id(11));
    assert_eq!(plans[0].layout_entries, bind_group_layout_entries(&sample_pass(10)));
}

#[test]
fn instance_plans_follow_sequence_order() {
    let d = sample_sequence();
    let plans = plan_pass_instances(&d);
    assert_eq!(plans.len(), 2);
    assert_eq!(plans[0].pass_id, Id(11));
    assert_eq!(plans[1].pass_id, Id(10));
    assert_eq!(plans[0].uniform_buffers, pass_instance_uniform_buffers(&sample_pass(11)));
    assert_eq!(plans[1].bind_group_entries, bind_group_entries(&sample_pass(10), &d.pass_instances[1]));
    assert_eq!(plans[1].uniform_values.len(), 2);
}

#[test]
fn sequence_plan_of_sample() {
    let d = sample_sequence();
    assert!(sequence_is_plannable(&d, 64, 32));
    let plan = plan_sequence(&d, 64, 32);
    assert_eq!(plan.viewport_size_x, 64);
    assert_eq!(plan.viewport_size_y, 32);
    assert_eq!(plan.standard_uniform_buffer_size, STANDARD_UNIFORM_BUFFER_SIZE);
    assert_eq!(STANDARD_UNIFORM_BUFFER_SIZE, 32);
    assert_eq!(plan.painted_buffer_id, Id(21));
    assert_eq!(plan.passes.len(), 2);
    assert_eq!(plan.shared_buffers.len(), 2);
    assert_eq!(plan.pass_instances.len(), 2);
    let color = plan.shared_buffers.iter().find(|b| b.id == Id(21)).unwrap();
    assert_eq!(color.size, 64 * 32 * 16);
}

#[test]
fn sequence_with_unknown_pass_is_not_plannable() {
    let mut d = sample_sequence();
    d.pass_instances.push(sample_instance(99, 20, 21));
    assert!(!sequence_is_plannable(&d, 64, 32));
}

#[test]
fn sequence_with_unknown_buffer_is_not_plannable() {
    let mut d = sample_sequence();
    d.pass_instances.push(sample_instance(10, 20, 77));
    assert!(!sequence_is_plannable(&d, 64, 32));
}

#[test]
fn sequence_too_large_for_memory_is_not_plannable() {
    let d = sample_sequence();
    assert!(!sequence_is_plannable(&d, usize::MAX, 2));
    assert!(!sequence_is_plannable(&d, usize::MAX / 8, 1));
    assert!(sequence_is_plannable(&d, usize::MAX / 16, 1));
}

#[test]
fn empty_sequence_is_plannable_for_any_viewport() {
    let d = PassSequenceDescriptor {
        passes: IdMap::new(),
        shared_buffers: IdMap::new(),
        pass_instances: vec![],
        painted_buffer_id: Id(0),
    };
    assert!(sequence_is_plannable(&d, usize::MAX, usize::MAX));
}

#[test]
fn paint_layout_reads_painted_buffer_in_fragment_shader() {
    assert_eq!(
        paint_bind_group_layout_entries(),
        vec![
            BindGroupLayoutEntry {
                binding: 0,
                visibility: ShaderStage::Fragment,
                kind: BufferBindingKind::Uniform,
            },
            BindGroupLayoutEntry {
                binding: 1,
                visibility: ShaderStage::Fragment,
                kind: BufferBindingKind::Storage { read_only: true },
            },
        ]
    );
}

#[test]
fn paint_bind_group_binds_uniform_then_painted_buffer() {
    let entries = paint_bind_group_entries(Id(42));
    assert_eq!(
        entries,
        vec![
            BindGroupEntry { binding: 0, resource: BindingResource::PaintUniformBuffer },
            BindGroupEntry { binding: 1, resource: BindingResource::SharedBuffer(Id(42)) },
        ]
    );
    let layout = paint_bind_group_layout_entries();
    for (e, l) in entries.iter().zip(layout.iter()) {
        assert_eq!(e.binding, l.binding);
    }
}
