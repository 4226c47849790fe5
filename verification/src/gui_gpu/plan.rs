//! What the GPU objects of a pass sequence are made of: bind group layouts,
//! bind groups, buffer sizes and initial uniform values, as plain values.

use crate::gui_gpu::id::{Id, IdMap};
use crate::gui_gpu::value::ValueType;
use crate::gui_gpu::{
    PassDescriptor, PassInstanceDescriptor, PassSequenceDescriptor, PassStorageBufferBinding,
    PassStorageBufferDescriptor, PassUniformBufferDescriptor, PassUniformValue, SharedBufferDescriptor,
};
use vstd::prelude::*;
use vstd::std_specs::iter::IteratorSpec;

verus! {

/// The shader stage that a binding is visible to.
#[derive(Debug, Clone, Copy, PartialEq, Eq, Structural)]
pub enum ShaderStage {
    Compute,
    Fragment,
}

/// The kind of buffer a binding expects.
#[derive(Debug, Clone, Copy, PartialEq, Eq, Structural)]
pub enum BufferBindingKind {
    Uniform,
    Storage { read_only: bool },
}

/// One entry of a bind group layout: a buffer binding without dynamic
/// offset, minimum size or array count.
#[derive(Debug, Clone, Copy, PartialEq, Eq, Structural)]
pub struct BindGroupLayoutEntry {
    pub binding: u32,
    pub visibility: ShaderStage,
    pub kind: BufferBindingKind,
}

/// The buffer that a bind group entry binds.
#[derive(Debug, Clone, Copy, PartialEq, Eq, Structural)]
pub enum BindingResource {
    /// The uniform buffer shared by all passes of the sequence.
    StandardUniformBuffer,
    /// The uniform buffer of the pass instance at this index of its uniform buffers.
    InstanceUniformBuffer(usize),
    /// The shared buffer with this identifier.
    SharedBuffer(Id),
    /// The uniform buffer of the paint pipeline.
    PaintUniformBuffer,
}

/// One entry of a bind group: a whole buffer bound at a binding.
#[derive(Debug, Clone, Copy, PartialEq, Eq, Structural)]
pub struct BindGroupEntry {
    pub binding: u32,
    pub resource: BindingResource,
}

/// A uniform buffer of a pass instance: its binding and its size in bytes.
#[derive(Debug, Clone, Copy, PartialEq, Eq, Structural)]
pub struct UniformBufferPlan {
    pub binding: u32,
    pub size: u64,
}

/// The binding of the uniform buffer that every pass receives.
pub const STANDARD_UNIFORM_BINDING: u32 = 0;

/// The layout entry of the standard uniform buffer.
pub open spec fn standard_layout_entry() -> BindGroupLayoutEntry {
    BindGroupLayoutEntry {
        binding: STANDARD_UNIFORM_BINDING,
        visibility: ShaderStage::Compute,
        kind: BufferBindingKind::Uniform,
    }
}

/// The layout entry of a uniform buffer that a pass declares.
pub open spec fn uniform_layout_entry(d: PassUniformBufferDescriptor) -> BindGroupLayoutEntry {
    BindGroupLayoutEntry {
        binding: d.binding,
        visibility: ShaderStage::Compute,
        kind: BufferBindingKind::Uniform,
    }
}

/// The layout entry of a storage buffer that a pass declares: read-only
/// unless the pass writes it.
pub open spec fn storage_layout_entry(d: PassStorageBufferDescriptor) -> BindGroupLayoutEntry {
    BindGroupLayoutEntry {
        binding: d.binding,
        visibility: ShaderStage::Compute,
        kind: BufferBindingKind::Storage { read_only: !d.writable },
    }
}

/// The bind group layout of a pass: the standard uniform buffer, then the
/// pass's uniform buffers, then its storage buffers, each in declared order.
pub open spec fn spec_bind_group_layout_entries(pd: PassDescriptor) -> Seq<BindGroupLayoutEntry> {
    seq![standard_layout_entry()] + pd.uniform_buffer_descriptors@.map_values(
        |d: PassUniformBufferDescriptor| uniform_layout_entry(d),
    ) + pd.storage_buffer_descriptors@.map_values(
        |d: PassStorageBufferDescriptor| storage_layout_entry(d),
    )
}

/// The bind group layout entries of a pass.
pub fn bind_group_layout_entries(pass_descriptor: &PassDescriptor) -> (entries: Vec<
    BindGroupLayoutEntry,
>)
    ensures
        entries@ == spec_bind_group_layout_entries(*pass_descriptor),
{
    let mut entries: Vec<BindGroupLayoutEntry> = Vec::new();
    entries.push(
        BindGroupLayoutEntry {
            binding: STANDARD_UNIFORM_BINDING,
            visibility: ShaderStage::Compute,
            kind: BufferBindingKind::Uniform,
        },
    );
    let uniforms = &pass_descriptor.uniform_buffer_descriptors;
    let storages = &pass_descriptor.storage_buffer_descriptors;
    let ghost head = seq![standard_layout_entry()];
    let ghost us = uniforms@.map_values(|d: PassUniformBufferDescriptor| uniform_layout_entry(d));
    let ghost ss = storages@.map_values(|d: PassStorageBufferDescriptor| storage_layout_entry(d));
    let mut i: usize = 0;
    while i < uniforms.len()
        invariant
            i <= uniforms@.len(),
            us == uniforms@.map_values(|d: PassUniformBufferDescriptor| uniform_layout_entry(d)),
            entries@ == head + us.take(i as int),
        decreases uniforms@.len() - i,
    {
        let d = &uniforms[i];
        entries.push(
            BindGroupLayoutEntry {
                binding: d.binding,
                visibility: ShaderStage::Compute,
                kind: BufferBindingKind::Uniform,
            },
        );
        assert(us.take(i + 1) == us.take(i as int).push(us[i as int]));
        i = i + 1;
    }
    assert(us.take(uniforms@.len() as int) == us);
    let mut j: usize = 0;
    while j < storages.len()
        invariant
            j <= storages@.len(),
            ss == storages@.map_values(|d: PassStorageBufferDescriptor| storage_layout_entry(d)),
            entries@ == head + us + ss.take(j as int),
        decreases storages@.len() - j,
    {
        let d = &storages[j];
        entries.push(
            BindGroupLayoutEntry {
                binding: d.binding,
                visibility: ShaderStage::Compute,
                kind: BufferBindingKind::Storage { read_only: !d.writable },
            },
        );
        assert(ss.take(j + 1) == ss.take(j as int).push(ss[j as int]));
        j = j + 1;
    }
    assert(ss.take(storages@.len() as int) == ss);
    entries
}

/// The uniform buffer of an instance for one uniform that its pass declares:
/// same binding, sized for the uniform's value type.
pub open spec fn uniform_buffer_plan(d: PassUniformBufferDescriptor) -> UniformBufferPlan {
    UniformBufferPlan { binding: d.binding, size: d.value_type.spec_size() as u64 }
}

/// The uniform buffers of an instance of a pass, in declared order.
pub open spec fn spec_pass_instance_uniform_buffers(pd: PassDescriptor) -> Seq<UniformBufferPlan> {
    pd.uniform_buffer_descriptors@.map_values(|d: PassUniformBufferDescriptor| uniform_buffer_plan(d))
}

/// The uniform buffers that an instance of the pass owns.
pub fn pass_instance_uniform_buffers(pass_descriptor: &PassDescriptor) -> (buffers: Vec<
    UniformBufferPlan,
>)
    ensures
        buffers@ == spec_pass_instance_uniform_buffers(*pass_descriptor),
{
    let uniforms = &pass_descriptor.uniform_buffer_descriptors;
    let ghost target = spec_pass_instance_uniform_buffers(*pass_descriptor);
    let mut buffers: Vec<UniformBufferPlan> = Vec::new();
    let mut i: usize = 0;
    while i < uniforms.len()
        invariant
            i <= uniforms@.len(),
            uniforms@ == pass_descriptor.uniform_buffer_descriptors@,
            target == spec_pass_instance_uniform_buffers(*pass_descriptor),
            buffers@ == target.take(i as int),
        decreases uniforms@.len() - i,
    {
        let d = &uniforms[i];
        let size = d.value_type.size();
        buffers.push(UniformBufferPlan { binding: d.binding, size: size as u64 });
        assert(target.take(i + 1) == target.take(i as int).push(target[i as int]));
        i = i + 1;
    }
    assert(target.take(uniforms@.len() as int) == target);
    buffers
}

/// The initial value of a uniform that a pass declares: the zero of its type.
pub open spec fn initial_uniform_value(d: PassUniformBufferDescriptor) -> PassUniformValue {
    PassUniformValue { binding: d.binding, value: d.value_type.spec_default_value() }
}

/// The initial uniform values of an instance of a pass, in declared order.
pub open spec fn spec_pass_uniform_values(pd: PassDescriptor) -> Seq<PassUniformValue> {
    pd.uniform_buffer_descriptors@.map_values(|d: PassUniformBufferDescriptor| initial_uniform_value(d))
}

/// The initial values of the uniforms of an instance of the pass.
pub fn create_pass_uniform_values(pass_descriptor: &PassDescriptor) -> (values: Vec<
    PassUniformValue,
>)
    ensures
        values@ == spec_pass_uniform_values(*pass_descriptor),
{
    let uniforms = &pass_descriptor.uniform_buffer_descriptors;
    let ghost target = spec_pass_uniform_values(*pass_descriptor);
    let mut values: Vec<PassUniformValue> = Vec::new();
    let mut i: usize = 0;
    while i < uniforms.len()
        invariant
            i <= uniforms@.len(),
            uniforms@ == pass_descriptor.uniform_buffer_descriptors@,
            target == spec_pass_uniform_values(*pass_descriptor),
            values@ == target.take(i as int),
        decreases uniforms@.len() - i,
    {
        let d = &uniforms[i];
        let value = d.value_type.default_value();
        values.push(PassUniformValue { binding: d.binding, value });
        assert(target.take(i + 1) == target.take(i as int).push(target[i as int]));
        i = i + 1;
    }
    assert(target.take(uniforms@.len() as int) == target);
    values
}

/// The bind group entry of a storage binding of a pass instance.
pub open spec fn storage_bind_group_entry(b: PassStorageBufferBinding) -> BindGroupEntry {
    BindGroupEntry { binding: b.binding, resource: BindingResource::SharedBuffer(b.buffer_id) }
}

/// The bind group of a pass instance: the standard uniform buffer at
/// binding 0, the instance's own uniform buffers at the bindings its pass
/// declares, then the shared buffers at the instance's storage bindings.
pub open spec fn spec_bind_group_entries(
    pd: PassDescriptor,
    pid: PassInstanceDescriptor,
) -> Seq<BindGroupEntry> {
    seq![
        BindGroupEntry {
            binding: STANDARD_UNIFORM_BINDING,
            resource: BindingResource::StandardUniformBuffer,
        },
    ] + Seq::new(
        pd.uniform_buffer_descriptors@.len(),
        |i: int|
            BindGroupEntry {
                binding: pd.uniform_buffer_descriptors@[i].binding,
                resource: BindingResource::InstanceUniformBuffer(i as usize),
            },
    ) + pid.storage_buffer_bindings@.map_values(
        |b: PassStorageBufferBinding| storage_bind_group_entry(b),
    )
}

/// The bind group entries of an instance of the pass.
pub fn bind_group_entries(
    pass_descriptor: &PassDescriptor,
    pass_instance_descriptor: &PassInstanceDescriptor,
) -> (entries: Vec<BindGroupEntry>)
    ensures
        entries@ == spec_bind_group_entries(*pass_descriptor, *pass_instance_descriptor),
{
    let uniforms = &pass_descriptor.uniform_buffer_descriptors;
    let bindings = &pass_instance_descriptor.storage_buffer_bindings;
    let ghost head = seq![
        BindGroupEntry {
            binding: STANDARD_UNIFORM_BINDING,
            resource: BindingResource::StandardUniformBuffer,
        },
    ];
    let ghost us = Seq::new(
        uniforms@.len(),
        |i: int|
            BindGroupEntry {
                binding: uniforms@[i].binding,
                resource: BindingResource::InstanceUniformBuffer(i as usize),
            },
    );
    let ghost bs = bindings@.map_values(|b: PassStorageBufferBinding| storage_bind_group_entry(b));
    let mut entries: Vec<BindGroupEntry> = Vec::new();
    entries.push(
        BindGroupEntry {
            binding: STANDARD_UNIFORM_BINDING,
            resource: BindingResource::StandardUniformBuffer,
        },
    );
    let mut i: usize = 0;
    while i < uniforms.len()
        invariant
            i <= uniforms@.len(),
            us.len() == uniforms@.len(),
            forall|k: int|
                0 <= k < us.len() ==> #[trigger] us[k] == (BindGroupEntry {
                    binding: uniforms@[k].binding,
                    resource: BindingResource::InstanceUniformBuffer(k as usize),
                }),
            entries@ == head + us.take(i as int),
        decreases uniforms@.len() - i,
    {
        entries.push(
            BindGroupEntry {
                binding: uniforms[i].binding,
                resource: BindingResource::InstanceUniformBuffer(i),
            },
        );
        assert(us.take(i + 1) == us.take(i as int).push(us[i as int]));
        i = i + 1;
    }
    assert(us.take(uniforms@.len() as int) == us);
    let mut j: usize = 0;
    while j < bindings.len()
        invariant
            j <= bindings@.len(),
            bs == bindings@.map_values(|b: PassStorageBufferBinding| storage_bind_group_entry(b)),
            entries@ == head + us + bs.take(j as int),
        decreases bindings@.len() - j,
    {
        let b = &bindings[j];
        entries.push(
            BindGroupEntry {
                binding: b.binding,
                resource: BindingResource::SharedBuffer(b.buffer_id),
            },
        );
        assert(bs.take(j + 1) == bs.take(j as int).push(bs[j as int]));
        j = j + 1;
    }
    assert(bs.take(bindings@.len() as int) == bs);
    entries
}

/// Size in bytes of a shared buffer: one element per pixel of the viewport,
/// each element taking the alignment of its type.
pub open spec fn spec_shared_buffer_size(
    viewport_size_x: usize,
    viewport_size_y: usize,
    element_type: ValueType,
) -> int {
    viewport_size_x * viewport_size_y * element_type.spec_align()
}

/// The size in bytes of a shared buffer for a viewport of the given size.
pub fn shared_buffer_size(
    viewport_size_x: usize,
    viewport_size_y: usize,
    element_type: ValueType,
) -> (size: u64)
    requires
        spec_shared_buffer_size(viewport_size_x, viewport_size_y, element_type) <= usize::MAX,
    ensures
        size == spec_shared_buffer_size(viewport_size_x, viewport_size_y, element_type),
{
    let align = element_type.align();
    assert(viewport_size_x * viewport_size_y <= viewport_size_x * viewport_size_y * align)
        by (nonlinear_arith)
        requires
            align >= 1,
            viewport_size_x >= 0,
            viewport_size_y >= 0,
    ;
    let pixels = viewport_size_x * viewport_size_y;
    let size = pixels * align;
    size as u64
}

/// What an instance of a pass is made of besides its pass's pipeline.
pub struct PassInstancePlan {
    pub pass_id: Id,
    pub uniform_values: Vec<PassUniformValue>,
    pub uniform_buffers: Vec<UniformBufferPlan>,
    pub bind_group_entries: Vec<BindGroupEntry>,
}

impl PassInstancePlan {
    /// This is the plan of the instance `pid` of the pass `pd`.
    pub open spec fn plans(self, pd: PassDescriptor, pid: PassInstanceDescriptor) -> bool {
        &&& self.pass_id == pid.pass_id
        &&& self.uniform_values@ == spec_pass_uniform_values(pd)
        &&& self.uniform_buffers@ == spec_pass_instance_uniform_buffers(pd)
        &&& self.bind_group_entries@ == spec_bind_group_entries(pd, pid)
    }
}

/// The plan of every pass instance of a sequence, in sequence order. The
/// instances must name passes of the sequence, and their storage bindings
/// shared buffers of it, for their GPU objects to be made.
pub fn plan_pass_instances(descriptor: &PassSequenceDescriptor) -> (plans: Vec<PassInstancePlan>)
    requires
        descriptor.instances_name_passes(),
        descriptor.bindings_name_buffers(),
    ensures
        plans@.len() == descriptor.pass_instances@.len(),
        forall|i: int|
            0 <= i < plans@.len() ==> #[trigger] plans@[i].plans(
                descriptor.passes@[descriptor.pass_instances@[i].pass_id.0],
                descriptor.pass_instances@[i],
            ),
{
    broadcast use vstd::std_specs::hash::group_hash_axioms;

    let instances = &descriptor.pass_instances;
    let mut plans: Vec<PassInstancePlan> = Vec::new();
    let mut i: usize = 0;
    while i < instances.len()
        invariant
            i <= instances@.len(),
            instances@ == descriptor.pass_instances@,
            descriptor.instances_name_passes(),
            plans@.len() == i,
            forall|k: int|
                0 <= k < i ==> #[trigger] plans@[k].plans(
                    descriptor.passes@[descriptor.pass_instances@[k].pass_id.0],
                    descriptor.pass_instances@[k],
                ),
        decreases instances@.len() - i,
    {
        let pid = &instances[i];
        assert(descriptor.passes@.contains_key(descriptor.pass_instances@[i as int].pass_id.0));
        let pd = descriptor.passes.get(&pid.pass_id.0).unwrap();
        let plan = PassInstancePlan {
            pass_id: pid.pass_id,
            uniform_values: create_pass_uniform_values(pd),
            uniform_buffers: pass_instance_uniform_buffers(pd),
            bind_group_entries: bind_group_entries(pd, pid),
        };
        plans.push(plan);
        i = i + 1;
    }
    plans
}

/// A shared buffer of a sequence: its identifier and its size in bytes.
#[derive(Debug, Clone, Copy, PartialEq, Eq, Structural)]
pub struct SharedBufferPlan {
    pub id: Id,
    pub size: u64,
}

/// One plan per shared buffer descriptor, each sized for the viewport, in
/// the order in which the map hands them out.
pub fn plan_shared_buffers(
    shared_buffer_descriptors: &IdMap<SharedBufferDescriptor>,
    viewport_size_x: usize,
    viewport_size_y: usize,
) -> (plans: Vec<SharedBufferPlan>)
    requires
        forall|k: u64| #[trigger]
            shared_buffer_descriptors@.contains_key(k) ==> spec_shared_buffer_size(
                viewport_size_x,
                viewport_size_y,
                shared_buffer_descriptors@[k].element_type,
            ) <= usize::MAX,
    ensures
        plans@.len() == shared_buffer_descriptors@.len(),
        forall|j: int|
            0 <= j < plans@.len() ==> {
                &&& shared_buffer_descriptors@.contains_key(#[trigger] plans@[j].id.0)
                &&& plans@[j].size == spec_shared_buffer_size(
                    viewport_size_x,
                    viewport_size_y,
                    shared_buffer_descriptors@[plans@[j].id.0].element_type,
                )
            },
        forall|k: u64| #[trigger]
            shared_buffer_descriptors@.contains_key(k) ==> exists|j: int|
                0 <= j < plans@.len() && #[trigger] plans@[j].id.0 == k,
        forall|j1: int, j2: int|
            0 <= j1 < plans@.len() && 0 <= j2 < plans@.len() && j1 != j2 ==> #[trigger] plans@[j1].id
                != #[trigger] plans@[j2].id,
{
    broadcast use vstd::std_specs::hash::group_hash_axioms;

    let ghost m = shared_buffer_descriptors@;
    let iter = shared_buffer_descriptors.iter();
    let ghost entries = iter.remaining();
    assert(entries == vstd::std_specs::hash::spec_hash_map_iter(shared_buffer_descriptors).remaining());
    let mut plans: Vec<SharedBufferPlan> = Vec::new();
    for item in it: iter
        invariant
            m == shared_buffer_descriptors@,
            it.seq() == entries,
            entries.len() == m.len(),
            entries.no_duplicates(),
            forall|i: int|
                #![trigger entries[i]]
                0 <= i < entries.len() ==> m.contains_key(*entries[i].0) && m[*entries[i].0]
                    == *entries[i].1,
            forall|k: u64|
                #[trigger] m.contains_key(k) ==> entries.contains((&k, &m[k])),
            forall|k: u64| #[trigger]
                m.contains_key(k) ==> spec_shared_buffer_size(
                    viewport_size_x,
                    viewport_size_y,
                    m[k].element_type,
                ) <= usize::MAX,
            plans@.len() == it.index(),
            forall|j: int| 0 <= j < plans@.len() ==> #[trigger] plans@[j].id.0 == *entries[j].0,
            forall|j: int|
                0 <= j < plans@.len() ==> #[trigger] plans@[j].size == spec_shared_buffer_size(
                    viewport_size_x,
                    viewport_size_y,
                    m[*entries[j].0].element_type,
                ),
    {
        assert(item == entries[plans@.len() as int]);
        let (key, desc) = item;
        assert(m.contains_key(*key) && m[*key] == *desc);
        let size = shared_buffer_size(viewport_size_x, viewport_size_y, desc.element_type);
        let ghost before = plans@;
        let ghost n = before.len() as int;
        plans.push(SharedBufferPlan { id: Id(*key), size });
        assert forall|j: int| 0 <= j < plans@.len() implies #[trigger] plans@[j].id.0
            == *entries[j].0 && plans@[j].size == spec_shared_buffer_size(
            viewport_size_x,
            viewport_size_y,
            m[*entries[j].0].element_type,
        ) by {
            if j < n {
                assert(plans@[j] == before[j]);
                assert(before[j].id.0 == *entries[j].0);
                assert(before[j].size == spec_shared_buffer_size(
                    viewport_size_x,
                    viewport_size_y,
                    m[*entries[j].0].element_type,
                ));
            }
        }
    }
    assert forall|j: int| 0 <= j < plans@.len() implies {
        &&& shared_buffer_descriptors@.contains_key(#[trigger] plans@[j].id.0)
        &&& plans@[j].size == spec_shared_buffer_size(
            viewport_size_x,
            viewport_size_y,
            shared_buffer_descriptors@[plans@[j].id.0].element_type,
        )
    } by {
        assert(plans@[j].id.0 == *entries[j].0);
        assert(m.contains_key(*entries[j].0));
    }
    assert forall|k: u64| #[trigger]
        m.contains_key(k) implies exists|j: int| 0 <= j < plans@.len() && #[trigger] plans@[j].id.0 == k
    by {
        assert(entries.contains((&k, &m[k])));
        let j = choose|j: int| 0 <= j < entries.len() && entries[j] == (&k, &m[k]);
        assert(plans@[j].id.0 == k);
    }
    assert forall|j1: int, j2: int|
        0 <= j1 < plans@.len() && 0 <= j2 < plans@.len() && j1 != j2 implies #[trigger] plans@[j1].id
            != #[trigger] plans@[j2].id
    by {
        if plans@[j1].id == plans@[j2].id {
            assert(*entries[j1].0 == *entries[j2].0);
            assert(entries[j1] == entries[j2]);
        }
    }
    plans
}

/// A pass of a sequence: its identifier and its bind group layout.
pub struct PassPlan {
    pub id: Id,
    pub layout_entries: Vec<BindGroupLayoutEntry>,
}

/// One plan per pass descriptor, in the order in which the map hands them out.
pub fn plan_passes(pass_descriptors: &IdMap<PassDescriptor>) -> (plans: Vec<PassPlan>)
    ensures
        plans@.len() == pass_descriptors@.len(),
        forall|j: int|
            0 <= j < plans@.len() ==> {
                &&& pass_descriptors@.contains_key(#[trigger] plans@[j].id.0)
                &&& plans@[j].layout_entries@ == spec_bind_group_layout_entries(
                    pass_descriptors@[plans@[j].id.0],
                )
            },
        forall|k: u64| #[trigger]
            pass_descriptors@.contains_key(k) ==> exists|j: int|
                0 <= j < plans@.len() && #[trigger] plans@[j].id.0 == k,
        forall|j1: int, j2: int|
            0 <= j1 < plans@.len() && 0 <= j2 < plans@.len() && j1 != j2 ==> #[trigger] plans@[j1].id
                != #[trigger] plans@[j2].id,
{
    broadcast use vstd::std_specs::hash::group_hash_axioms;

    let ghost m = pass_descriptors@;
    let iter = pass_descriptors.iter();
    let ghost entries = iter.remaining();
    assert(entries == vstd::std_specs::hash::spec_hash_map_iter(pass_descriptors).remaining());
    let mut plans: Vec<PassPlan> = Vec::new();
    for item in it: iter
        invariant
            m == pass_descriptors@,
            it.seq() == entries,
            entries.len() == m.len(),
            entries.no_duplicates(),
            forall|i: int|
                #![trigger entries[i]]
                0 <= i < entries.len() ==> m.contains_key(*entries[i].0) && m[*entries[i].0]
                    == *entries[i].1,
            forall|k: u64| #[trigger] m.contains_key(k) ==> entries.contains((&k, &m[k])),
            plans@.len() == it.index(),
            forall|j: int| 0 <= j < plans@.len() ==> #[trigger] plans@[j].id.0 == *entries[j].0,
            forall|j: int|
                0 <= j < plans@.len() ==> #[trigger] plans@[j].layout_entries@
                    == spec_bind_group_layout_entries(m[*entries[j].0]),
    {
        assert(item == entries[plans@.len() as int]);
        let (key, desc) = item;
        assert(m.contains_key(*key) && m[*key] == *desc);
        let layout_entries = bind_group_layout_entries(desc);
        let ghost before = plans@;
        let ghost n = before.len() as int;
        plans.push(PassPlan { id: Id(*key), layout_entries });
        assert forall|j: int| 0 <= j < plans@.len() implies #[trigger] plans@[j].id.0
            == *entries[j].0 && plans@[j].layout_entries@ == spec_bind_group_layout_entries(
            m[*entries[j].0],
        ) by {
            if j < n {
                assert(plans@[j] == before[j]);
                assert(before[j].id.0 == *entries[j].0);
                assert(before[j].layout_entries@ == spec_bind_group_layout_entries(
                    m[*entries[j].0],
                ));
            }
        }
    }
    assert forall|j: int| 0 <= j < plans@.len() implies {
        &&& pass_descriptors@.contains_key(#[trigger] plans@[j].id.0)
        &&& plans@[j].layout_entries@ == spec_bind_group_layout_entries(
            pass_descriptors@[plans@[j].id.0],
        )
    } by {
        assert(plans@[j].id.0 == *entries[j].0);
        assert(m.contains_key(*entries[j].0));
    }
    assert forall|k: u64| #[trigger]
        m.contains_key(k) implies exists|j: int| 0 <= j < plans@.len() && #[trigger] plans@[j].id.0 == k
    by {
        assert(entries.contains((&k, &m[k])));
        let j = choose|j: int| 0 <= j < entries.len() && entries[j] == (&k, &m[k]);
        assert(plans@[j].id.0 == k);
    }
    assert forall|j1: int, j2: int|
        0 <= j1 < plans@.len() && 0 <= j2 < plans@.len() && j1 != j2 implies #[trigger] plans@[j1].id
            != #[trigger] plans@[j2].id
    by {
        if plans@[j1].id == plans@[j2].id {
            assert(*entries[j1].0 == *entries[j2].0);
            assert(entries[j1] == entries[j2]);
        }
    }
    plans
}

/// Size in bytes of the uniform buffer shared by all passes of a sequence:
/// eight 32-bit words.
pub const STANDARD_UNIFORM_BUFFER_SIZE: u64 = 8 * 4;

/// Everything a pass sequence is made of, as plain values.
pub struct SequencePlan {
    pub viewport_size_x: usize,
    pub viewport_size_y: usize,
    pub standard_uniform_buffer_size: u64,
    pub passes: Vec<PassPlan>,
    pub shared_buffers: Vec<SharedBufferPlan>,
    pub pass_instances: Vec<PassInstancePlan>,
    pub painted_buffer_id: Id,
}

/// Every shared buffer of the sequence fits in memory for this viewport.
pub open spec fn shared_buffers_fit(
    descriptor: PassSequenceDescriptor,
    viewport_size_x: usize,
    viewport_size_y: usize,
) -> bool {
    forall|k: u64| #[trigger]
        descriptor.shared_buffers@.contains_key(k) ==> spec_shared_buffer_size(
            viewport_size_x,
            viewport_size_y,
            descriptor.shared_buffers@[k].element_type,
        ) <= usize::MAX
}

impl SequencePlan {
    /// This is the plan of the sequence `d` for a viewport of `x` by `y` pixels:
    /// one plan per pass and per shared buffer (in the order in which the maps
    /// hand them out), and one per pass instance, in sequence order.
    pub open spec fn plans(self, d: PassSequenceDescriptor, x: usize, y: usize) -> bool {
        &&& self.viewport_size_x == x
        &&& self.viewport_size_y == y
        &&& self.standard_uniform_buffer_size == STANDARD_UNIFORM_BUFFER_SIZE
        &&& self.painted_buffer_id == d.painted_buffer_id
        &&& self.passes@.len() == d.passes@.len()
        &&& forall|j: int|
            0 <= j < self.passes@.len() ==> {
                &&& d.passes@.contains_key(#[trigger] self.passes@[j].id.0)
                &&& self.passes@[j].layout_entries@ == spec_bind_group_layout_entries(
                    d.passes@[self.passes@[j].id.0],
                )
            }
        &&& forall|k: u64| #[trigger]
            d.passes@.contains_key(k) ==> exists|j: int|
                0 <= j < self.passes@.len() && #[trigger] self.passes@[j].id.0 == k
        &&& self.shared_buffers@.len() == d.shared_buffers@.len()
        &&& forall|j: int|
            0 <= j < self.shared_buffers@.len() ==> {
                &&& d.shared_buffers@.contains_key(#[trigger] self.shared_buffers@[j].id.0)
                &&& self.shared_buffers@[j].size == spec_shared_buffer_size(
                    x,
                    y,
                    d.shared_buffers@[self.shared_buffers@[j].id.0].element_type,
                )
            }
        &&& forall|k: u64| #[trigger]
            d.shared_buffers@.contains_key(k) ==> exists|j: int|
                0 <= j < self.shared_buffers@.len() && #[trigger] self.shared_buffers@[j].id.0 == k
        &&& self.pass_instances@.len() == d.pass_instances@.len()
        &&& forall|i: int|
            0 <= i < self.pass_instances@.len() ==> #[trigger] self.pass_instances@[i].plans(
                d.passes@[d.pass_instances@[i].pass_id.0],
                d.pass_instances@[i],
            )
    }
}

/// The plan of a whole pass sequence for a viewport of the given size, for a
/// sequence that `sequence_is_plannable` accepts.
pub fn plan_sequence(
    descriptor: &PassSequenceDescriptor,
    viewport_size_x: usize,
    viewport_size_y: usize,
) -> (plan: SequencePlan)
    requires
        descriptor.instances_name_passes(),
        descriptor.bindings_name_buffers(),
        shared_buffers_fit(*descriptor, viewport_size_x, viewport_size_y),
    ensures
        plan.plans(*descriptor, viewport_size_x, viewport_size_y),
{
    let shared_buffers = plan_shared_buffers(
        &descriptor.shared_buffers,
        viewport_size_x,
        viewport_size_y,
    );
    let passes = plan_passes(&descriptor.passes);
    let pass_instances = plan_pass_instances(descriptor);
    let plan = SequencePlan {
        viewport_size_x,
        viewport_size_y,
        standard_uniform_buffer_size: STANDARD_UNIFORM_BUFFER_SIZE,
        passes,
        shared_buffers,
        pass_instances,
        painted_buffer_id: descriptor.painted_buffer_id,
    };
    assert forall|k: u64| #[trigger] descriptor.passes@.contains_key(k) implies exists|j: int|
        0 <= j < plan.passes@.len() && #[trigger] plan.passes@[j].id.0 == k by {
        let j = choose|j: int| 0 <= j < passes@.len() && #[trigger] passes@[j].id.0 == k;
        assert(plan.passes@[j].id.0 == k);
    }
    assert forall|k: u64| #[trigger] descriptor.shared_buffers@.contains_key(k) implies exists|j: int|
        0 <= j < plan.shared_buffers@.len() && #[trigger] plan.shared_buffers@[j].id.0 == k by {
        let j = choose|j: int| 0 <= j < shared_buffers@.len() && #[trigger] shared_buffers@[j].id.0 == k;
        assert(plan.shared_buffers@[j].id.0 == k);
    }
    plan
}

/// The bind group entry at index `k` fills the layout entry at index `k`:
/// same binding, and a uniform buffer exactly where the layout asks for one.
pub open spec fn entry_fills(entry: BindGroupEntry, layout: BindGroupLayoutEntry) -> bool {
    &&& entry.binding == layout.binding
    &&& (layout.kind == BufferBindingKind::Uniform) <==> !(entry.resource is SharedBuffer)
}

/// An instance whose storage bindings are, in order, the bindings that its
/// pass declares gets a bind group that fills its pass's layout entry by entry.
pub proof fn lemma_bind_group_fills_layout(pd: PassDescriptor, pid: PassInstanceDescriptor)
    requires
        pid.storage_buffer_bindings@.len() == pd.storage_buffer_descriptors@.len(),
        forall|j: int|
            0 <= j < pid.storage_buffer_bindings@.len() ==> #[trigger] pid.storage_buffer_bindings@[j].binding
                == pd.storage_buffer_descriptors@[j].binding,
    ensures
        spec_bind_group_entries(pd, pid).len() == spec_bind_group_layout_entries(pd).len(),
        forall|k: int|
            0 <= k < spec_bind_group_entries(pd, pid).len() ==> entry_fills(
                #[trigger] spec_bind_group_entries(pd, pid)[k],
                spec_bind_group_layout_entries(pd)[k],
            ),
{
    let entries = spec_bind_group_entries(pd, pid);
    let layout = spec_bind_group_layout_entries(pd);
    let u = pd.uniform_buffer_descriptors@.len();
    assert forall|k: int| 0 <= k < entries.len() implies entry_fills(
        #[trigger] entries[k],
        layout[k],
    ) by {
        if k == 0 {
        } else if k < 1 + u {
            assert(layout[k] == uniform_layout_entry(pd.uniform_buffer_descriptors@[k - 1]));
        } else {
            let j = k - 1 - u;
            assert(entries[k] == storage_bind_group_entry(pid.storage_buffer_bindings@[j]));
            assert(layout[k] == storage_layout_entry(pd.storage_buffer_descriptors@[j]));
            assert(pid.storage_buffer_bindings@[j].binding == pd.storage_buffer_descriptors@[j].binding);
        }
    }
}

/// The uniform values and the uniform buffers of an instance correspond
/// one to one: same bindings, and each buffer is as large as its value's type.
pub proof fn lemma_uniform_buffers_hold_values(pd: PassDescriptor)
    ensures
        spec_pass_uniform_values(pd).len() == spec_pass_instance_uniform_buffers(pd).len(),
        forall|i: int|
            0 <= i < spec_pass_uniform_values(pd).len() ==> {
                let v = #[trigger] spec_pass_uniform_values(pd)[i];
                let b = spec_pass_instance_uniform_buffers(pd)[i];
                &&& v.binding == b.binding
                &&& b.size == v.value.spec_value_type().spec_size()
            },
{
    assert forall|i: int| 0 <= i < spec_pass_uniform_values(pd).len() implies {
        let v = #[trigger] spec_pass_uniform_values(pd)[i];
        let b = spec_pass_instance_uniform_buffers(pd)[i];
        &&& v.binding == b.binding
        &&& b.size == v.value.spec_value_type().spec_size()
    } by {
        let t = pd.uniform_buffer_descriptors@[i].value_type;
        crate::gui_gpu::value::lemma_default_value_is_zero_of_type(t);
    }
}

/// In a sequence whose instances bind what their passes declare, every
/// instance's bind group fills its pass's layout entry by entry, and every
/// shared buffer it binds has the element type that the layout entry's
/// storage declaration names.
pub proof fn lemma_sequence_bind_groups_fill_layouts(d: PassSequenceDescriptor)
    requires
        d.instances_name_passes(),
        d.bindings_match_passes(),
    ensures
        forall|i: int|
            0 <= i < d.pass_instances@.len() ==> {
                let pid = #[trigger] d.pass_instances@[i];
                let pd = d.passes@[pid.pass_id.0];
                let entries = spec_bind_group_entries(pd, pid);
                let layout = spec_bind_group_layout_entries(pd);
                &&& entries.len() == layout.len()
                &&& forall|k: int|
                    0 <= k < entries.len() ==> entry_fills(#[trigger] entries[k], layout[k])
                &&& forall|j: int|
                    0 <= j < pid.storage_buffer_bindings@.len()
                        ==> d.shared_buffers@[#[trigger] pid.storage_buffer_bindings@[j].buffer_id.0].element_type
                        == pd.storage_buffer_descriptors@[j].element_type
            },
{
    assert forall|i: int| 0 <= i < d.pass_instances@.len() implies {
        let pid = #[trigger] d.pass_instances@[i];
        let pd = d.passes@[pid.pass_id.0];
        let entries = spec_bind_group_entries(pd, pid);
        let layout = spec_bind_group_layout_entries(pd);
        &&& entries.len() == layout.len()
        &&& forall|k: int| 0 <= k < entries.len() ==> entry_fills(#[trigger] entries[k], layout[k])
        &&& forall|j: int|
            0 <= j < pid.storage_buffer_bindings@.len()
                ==> d.shared_buffers@[#[trigger] pid.storage_buffer_bindings@[j].buffer_id.0].element_type
                == pd.storage_buffer_descriptors@[j].element_type
    } by {
        let pid = d.pass_instances@[i];
        let pd = d.passes@[pid.pass_id.0];
        assert forall|j: int| 0 <= j < pid.storage_buffer_bindings@.len() implies #[trigger] pid.storage_buffer_bindings@[j].binding
            == pd.storage_buffer_descriptors@[j].binding by {
        }
        lemma_bind_group_fills_layout(pd, pid);
    }
}

/// Whether a shared buffer of this element type fits in memory for the viewport.
fn shared_buffer_fits(viewport_size_x: usize, viewport_size_y: usize, element_type: ValueType) -> (fits:
    bool)
    ensures
        fits == (spec_shared_buffer_size(viewport_size_x, viewport_size_y, element_type)
            <= usize::MAX),
{
    let align = element_type.align();
    match viewport_size_x.checked_mul(viewport_size_y) {
        None => {
            assert(viewport_size_x * viewport_size_y * align >= viewport_size_x * viewport_size_y)
                by (nonlinear_arith)
                requires
                    align >= 1,
                    viewport_size_x * viewport_size_y >= 0,
            ;
            false
        },
        Some(pixels) => pixels.checked_mul(align).is_some(),
    }
}

/// Whether `plan_sequence` accepts the descriptor for this viewport: every
/// instance names a pass, every storage binding names a shared buffer, and
/// every shared buffer fits in memory.
pub fn sequence_is_plannable(
    descriptor: &PassSequenceDescriptor,
    viewport_size_x: usize,
    viewport_size_y: usize,
) -> (plannable: bool)
    ensures
        plannable == (descriptor.instances_name_passes() && descriptor.bindings_name_buffers()
            && shared_buffers_fit(*descriptor, viewport_size_x, viewport_size_y)),
{
    broadcast use vstd::std_specs::hash::group_hash_axioms;

    let instances = &descriptor.pass_instances;
    let mut i: usize = 0;
    while i < instances.len()
        invariant
            i <= instances@.len(),
            instances@ == descriptor.pass_instances@,
            forall|k: int|
                0 <= k < i ==> descriptor.passes@.contains_key(
                    #[trigger] descriptor.pass_instances@[k].pass_id.0,
                ),
            forall|k: int, j: int|
                0 <= k < i && 0 <= j < descriptor.pass_instances@[k].storage_buffer_bindings@.len()
                    ==> descriptor.shared_buffers@.contains_key(
                    #[trigger] descriptor.pass_instances@[k].storage_buffer_bindings@[j].buffer_id.0,
                ),
        decreases instances@.len() - i,
    {
        let pid = &instances[i];
        if !descriptor.passes.contains_key(&pid.pass_id.0) {
            return false;
        }
        let bindings = &pid.storage_buffer_bindings;
        let mut j: usize = 0;
        while j < bindings.len()
            invariant
                j <= bindings@.len(),
                i < instances@.len(),
                instances@ == descriptor.pass_instances@,
                bindings@ == descriptor.pass_instances@[i as int].storage_buffer_bindings@,
                forall|jj: int|
                    0 <= jj < j ==> descriptor.shared_buffers@.contains_key(
                        #[trigger] descriptor.pass_instances@[i as int].storage_buffer_bindings@[jj].buffer_id.0,
                    ),
            decreases bindings@.len() - j,
        {
            if !descriptor.shared_buffers.contains_key(&bindings[j].buffer_id.0) {
                assert(!descriptor.bindings_name_buffers());
                return false;
            }
            j = j + 1;
        }
        i = i + 1;
    }
    let ghost m = descriptor.shared_buffers@;
    let iter = descriptor.shared_buffers.iter();
    let ghost entries = iter.remaining();
    assert(entries == vstd::std_specs::hash::spec_hash_map_iter(&descriptor.shared_buffers).remaining());
    let ghost mut count: int = 0;
    for item in it: iter
        invariant
            m == descriptor.shared_buffers@,
            it.seq() == entries,
            entries.len() == m.len(),
            forall|i: int|
                #![trigger entries[i]]
                0 <= i < entries.len() ==> m.contains_key(*entries[i].0) && m[*entries[i].0]
                    == *entries[i].1,
            forall|k: u64| #[trigger] m.contains_key(k) ==> entries.contains((&k, &m[k])),
            count == it.index(),
            forall|j: int|
                0 <= j < count ==> #[trigger] spec_shared_buffer_size(
                    viewport_size_x,
                    viewport_size_y,
                    entries[j].1.element_type,
                ) <= usize::MAX,
    {
        assert(item == entries[count]);
        let (_key, desc) = item;
        if !shared_buffer_fits(viewport_size_x, viewport_size_y, desc.element_type) {
            assert(m.contains_key(*entries[count].0));
            assert(!shared_buffers_fit(*descriptor, viewport_size_x, viewport_size_y));
            return false;
        }
        proof {
            count = count + 1;
        }
    }
    assert forall|k: u64| #[trigger] m.contains_key(k) implies spec_shared_buffer_size(
        viewport_size_x,
        viewport_size_y,
        m[k].element_type,
    ) <= usize::MAX by {
        assert(entries.contains((&k, &m[k])));
        let j = choose|j: int| 0 <= j < entries.len() && entries[j] == (&k, &m[k]);
        assert(spec_shared_buffer_size(viewport_size_x, viewport_size_y, entries[j].1.element_type)
            <= usize::MAX);
    }
    true
}

/// The binding of the paint pipeline's uniform buffer.
pub const PAINT_UNIFORM_BINDING: u32 = 0;

/// The binding of the shared buffer that the paint pipeline reads.
pub const PAINTED_BUFFER_BINDING: u32 = 1;

/// The bind group layout of the paint pipeline: its uniform buffer, and the
/// painted shared buffer, read-only, both visible to the fragment shader.
pub open spec fn spec_paint_bind_group_layout_entries() -> Seq<BindGroupLayoutEntry> {
    seq![
        BindGroupLayoutEntry {
            binding: PAINT_UNIFORM_BINDING,
            visibility: ShaderStage::Fragment,
            kind: BufferBindingKind::Uniform,
        },
        BindGroupLayoutEntry {
            binding: PAINTED_BUFFER_BINDING,
            visibility: ShaderStage::Fragment,
            kind: BufferBindingKind::Storage { read_only: true },
        },
    ]
}

/// The bind group layout entries of the paint pipeline.
pub fn paint_bind_group_layout_entries() -> (entries: Vec<BindGroupLayoutEntry>)
    ensures
        entries@ == spec_paint_bind_group_layout_entries(),
{
    let mut entries: Vec<BindGroupLayoutEntry> = Vec::new();
    entries.push(
        BindGroupLayoutEntry {
            binding: PAINT_UNIFORM_BINDING,
            visibility: ShaderStage::Fragment,
            kind: BufferBindingKind::Uniform,
        },
    );
    entries.push(
        BindGroupLayoutEntry {
            binding: PAINTED_BUFFER_BINDING,
            visibility: ShaderStage::Fragment,
            kind: BufferBindingKind::Storage { read_only: true },
        },
    );
    entries
}

/// Every shared buffer takes at most sixteen bytes per pixel, so every
/// sequence's shared buffers fit when sixteen bytes per pixel of the
/// viewport do.
pub proof fn lemma_sixteen_bytes_per_pixel_fit(
    descriptor: PassSequenceDescriptor,
    viewport_size_x: usize,
    viewport_size_y: usize,
)
    requires
        viewport_size_x * viewport_size_y * 16 <= usize::MAX,
    ensures
        shared_buffers_fit(descriptor, viewport_size_x, viewport_size_y),
{
    assert forall|k: u64| #[trigger] descriptor.shared_buffers@.contains_key(k) implies spec_shared_buffer_size(
        viewport_size_x,
        viewport_size_y,
        descriptor.shared_buffers@[k].element_type,
    ) <= usize::MAX by {
        let a = descriptor.shared_buffers@[k].element_type.spec_align();
        let p = viewport_size_x * viewport_size_y;
        assert(p * a <= p * 16) by (nonlinear_arith)
            requires
                p >= 0,
                a <= 16,
        ;
    }
}

/// The bind group of the paint pipeline: its uniform buffer, and the
/// shared buffer that it paints.
pub open spec fn spec_paint_bind_group_entries(painted_buffer_id: Id) -> Seq<BindGroupEntry> {
    seq![
        BindGroupEntry { binding: PAINT_UNIFORM_BINDING, resource: BindingResource::PaintUniformBuffer },
        BindGroupEntry {
            binding: PAINTED_BUFFER_BINDING,
            resource: BindingResource::SharedBuffer(painted_buffer_id),
        },
    ]
}

/// The bind group entries of the paint pipeline for the painted shared buffer.
pub fn paint_bind_group_entries(painted_buffer_id: Id) -> (entries: Vec<BindGroupEntry>)
    ensures
        entries@ == spec_paint_bind_group_entries(painted_buffer_id),
{
    let mut entries: Vec<BindGroupEntry> = Vec::new();
    entries.push(
        BindGroupEntry { binding: PAINT_UNIFORM_BINDING, resource: BindingResource::PaintUniformBuffer },
    );
    entries.push(
        BindGroupEntry {
            binding: PAINTED_BUFFER_BINDING,
            resource: BindingResource::SharedBuffer(painted_buffer_id),
        },
    );
    entries
}

/// The paint pipeline's bind group fills its layout entry by entry, and the
/// painted buffer is bound read-only: painting never writes it.
pub proof fn lemma_paint_bind_group_fills_layout(painted_buffer_id: Id)
    ensures
        forall|k: int|
            0 <= k < spec_paint_bind_group_entries(painted_buffer_id).len() && #[trigger] spec_paint_bind_group_entries(painted_buffer_id)[k].resource
                == BindingResource::SharedBuffer(painted_buffer_id)
                ==> spec_paint_bind_group_layout_entries()[k].kind == (BufferBindingKind::Storage {
                read_only: true,
            }),
        spec_paint_bind_group_entries(painted_buffer_id).len()
            == spec_paint_bind_group_layout_entries().len(),
        forall|k: int|
            0 <= k < spec_paint_bind_group_entries(painted_buffer_id).len() ==> entry_fills(
                #[trigger] spec_paint_bind_group_entries(painted_buffer_id)[k],
                spec_paint_bind_group_layout_entries()[k],
            ),
{
    let e = spec_paint_bind_group_entries(painted_buffer_id);
    let l = spec_paint_bind_group_layout_entries();
    assert(entry_fills(e[0], l[0]));
    assert(entry_fills(e[1], l[1]));
}

/// Every initial uniform value of an instance is the zero of the type its
/// pass declares: it keeps the declared binding, has the declared type and
/// the type's number of components, and every component is the bit pattern
/// of `0.0`.
pub proof fn lemma_initial_uniform_values_are_zero(pd: PassDescriptor)
    ensures
        spec_pass_uniform_values(pd).len() == pd.uniform_buffer_descriptors@.len(),
        forall|i: int|
            0 <= i < pd.uniform_buffer_descriptors@.len() ==> {
                let v = #[trigger] spec_pass_uniform_values(pd)[i];
                let d = pd.uniform_buffer_descriptors@[i];
                &&& v.binding == d.binding
                &&& v.value.spec_value_type() == d.value_type
                &&& v.value.components().len() == d.value_type.component_count()
                &&& forall|c: int|
                    0 <= c < v.value.components().len() ==> #[trigger] v.value.components()[c]
                        == 0u32
            },
{
    assert forall|i: int| 0 <= i < pd.uniform_buffer_descriptors@.len() implies {
        let v = #[trigger] spec_pass_uniform_values(pd)[i];
        let d = pd.uniform_buffer_descriptors@[i];
        &&& v.binding == d.binding
        &&& v.value.spec_value_type() == d.value_type
        &&& v.value.components().len() == d.value_type.component_count()
        &&& forall|c: int|
            0 <= c < v.value.components().len() ==> #[trigger] v.value.components()[c] == 0u32
    } by {
        crate::gui_gpu::value::lemma_default_value_is_zero_of_type(
            pd.uniform_buffer_descriptors@[i].value_type,
        );
    }
}

/// The layout of a pass, entry by entry: binding 0 is the standard uniform
/// buffer; then, for each uniform the pass declares, a uniform buffer at its
/// binding; then, for each storage buffer it declares, a storage buffer at
/// its binding that is read-only exactly when the pass does not write it.
/// Every entry is visible to the compute shader.
pub proof fn lemma_layout_follows_declarations(pd: PassDescriptor)
    ensures
        ({
            let layout = spec_bind_group_layout_entries(pd);
            let us = pd.uniform_buffer_descriptors@;
            let ss = pd.storage_buffer_descriptors@;
            &&& layout.len() == 1 + us.len() + ss.len()
            &&& layout[0].binding == 0
            &&& layout[0].kind == BufferBindingKind::Uniform
            &&& forall|k: int| 0 <= k < layout.len() ==> #[trigger] layout[k].visibility
                == ShaderStage::Compute
            &&& forall|i: int|
                0 <= i < us.len() ==> {
                    &&& #[trigger] layout[1 + i].binding == us[i].binding
                    &&& layout[1 + i].kind == BufferBindingKind::Uniform
                }
            &&& forall|j: int|
                0 <= j < ss.len() ==> {
                    &&& #[trigger] layout[1 + us.len() + j].binding == ss[j].binding
                    &&& layout[1 + us.len() + j].kind == BufferBindingKind::Storage {
                        read_only: !ss[j].writable,
                    }
                }
        }),
{
    let layout = spec_bind_group_layout_entries(pd);
    let us = pd.uniform_buffer_descriptors@;
    let ss = pd.storage_buffer_descriptors@;
    assert forall|k: int| 0 <= k < layout.len() implies #[trigger] layout[k].visibility
        == ShaderStage::Compute by {
        if k == 0 {
        } else if k < 1 + us.len() {
            assert(layout[k] == uniform_layout_entry(us[k - 1]));
        } else {
            assert(layout[k] == storage_layout_entry(ss[k - 1 - us.len()]));
        }
    }
    assert forall|i: int| 0 <= i < us.len() implies {
        &&& #[trigger] layout[1 + i].binding == us[i].binding
        &&& layout[1 + i].kind == BufferBindingKind::Uniform
    } by {
        assert(layout[1 + i] == uniform_layout_entry(us[i]));
    }
    assert forall|j: int| 0 <= j < ss.len() implies {
        &&& #[trigger] layout[1 + us.len() + j].binding == ss[j].binding
        &&& layout[1 + us.len() + j].kind == BufferBindingKind::Storage {
            read_only: !ss[j].writable,
        }
    } by {
        assert(layout[1 + us.len() + j] == storage_layout_entry(ss[j]));
    }
}

/// The bind group of an instance binds each of the instance's uniform
/// buffers exactly once, in order: the entry after the standard uniform
/// buffer's for the `i`-th uniform names the `i`-th of the buffers that
/// `pass_instance_uniform_buffers` plans for the instance, at that buffer's
/// binding; and the shared buffers follow at the instance's storage bindings.
pub proof fn lemma_bind_group_binds_instance_uniforms(pd: PassDescriptor, pid: PassInstanceDescriptor)
    requires
        pd.uniform_buffer_descriptors@.len() <= usize::MAX,
    ensures
        ({
            let entries = spec_bind_group_entries(pd, pid);
            let buffers = spec_pass_instance_uniform_buffers(pd);
            let bs = pid.storage_buffer_bindings@;
            &&& entries.len() == 1 + buffers.len() + bs.len()
            &&& entries[0].binding == STANDARD_UNIFORM_BINDING
            &&& entries[0].resource == BindingResource::StandardUniformBuffer
            &&& forall|i: int|
                0 <= i < buffers.len() ==> {
                    &&& #[trigger] entries[1 + i].resource == BindingResource::InstanceUniformBuffer(
                        i as usize,
                    )
                    &&& entries[1 + i].binding == buffers[i].binding
                }
            &&& forall|k: int|
                0 <= k < entries.len() ==> match #[trigger] entries[k].resource {
                    BindingResource::InstanceUniformBuffer(n) => {
                        &&& n < buffers.len()
                        &&& k == 1 + n
                        &&& entries[k].binding == buffers[n as int].binding
                    },
                    _ => true,
                }
            &&& forall|j: int|
                0 <= j < bs.len() ==> {
                    &&& #[trigger] entries[1 + buffers.len() + j].binding == bs[j].binding
                    &&& entries[1 + buffers.len() + j].resource == BindingResource::SharedBuffer(
                        bs[j].buffer_id,
                    )
                }
        }),
{
    let entries = spec_bind_group_entries(pd, pid);
    let buffers = spec_pass_instance_uniform_buffers(pd);
    let us = pd.uniform_buffer_descriptors@;
    let bs = pid.storage_buffer_bindings@;
    assert(buffers.len() == us.len());
    assert forall|i: int| 0 <= i < buffers.len() implies {
        &&& #[trigger] entries[1 + i].resource == BindingResource::InstanceUniformBuffer(i as usize)
        &&& entries[1 + i].binding == buffers[i].binding
    } by {
        assert(buffers[i] == uniform_buffer_plan(us[i]));
    }
    assert forall|k: int| 0 <= k < entries.len() implies match #[trigger] entries[k].resource {
        BindingResource::InstanceUniformBuffer(n) => {
            &&& n < buffers.len()
            &&& k == 1 + n
            &&& entries[k].binding == buffers[n as int].binding
        },
        _ => true,
    } by {
        if k == 0 {
        } else if k < 1 + us.len() {
            assert(entries[k].resource == BindingResource::InstanceUniformBuffer((k - 1) as usize));
            assert(((k - 1) as usize) as int == k - 1);
            assert(buffers[k - 1] == uniform_buffer_plan(us[k - 1]));
        } else {
            assert(entries[k] == storage_bind_group_entry(bs[k - 1 - us.len()]));
        }
    }
    assert forall|j: int| 0 <= j < bs.len() implies {
        &&& #[trigger] entries[1 + buffers.len() + j].binding == bs[j].binding
        &&& entries[1 + buffers.len() + j].resource == BindingResource::SharedBuffer(bs[j].buffer_id)
    } by {
        assert(entries[1 + us.len() + j] == storage_bind_group_entry(bs[j]));
    }
}

/// A shared buffer is an array with one element per pixel of the viewport,
/// laid out at the element type's WGSL array stride (its alignment): its size
/// is the pixel count times the stride, every pixel's element lies wholly
/// inside it, and the stride is no smaller than the element.
pub proof fn lemma_shared_buffer_holds_every_pixel(
    viewport_size_x: usize,
    viewport_size_y: usize,
    element_type: ValueType,
)
    ensures
        spec_shared_buffer_size(viewport_size_x, viewport_size_y, element_type)
            == (viewport_size_x * viewport_size_y) * element_type.spec_align(),
        element_type.spec_size() <= element_type.spec_align(),
        forall|p: int|
            0 <= p < viewport_size_x * viewport_size_y ==> #[trigger] (p * element_type.spec_align())
                + element_type.spec_size() <= spec_shared_buffer_size(
                viewport_size_x,
                viewport_size_y,
                element_type,
            ),
{
    let n = viewport_size_x * viewport_size_y;
    let a = element_type.spec_align() as int;
    let z = element_type.spec_size() as int;
    crate::gui_gpu::value::lemma_value_type_layout(element_type);
    assert(viewport_size_x * viewport_size_y * a == n * a) by (nonlinear_arith)
        requires
            n == viewport_size_x * viewport_size_y,
    ;
    assert forall|p: int| 0 <= p < n implies #[trigger] (p * a) + z <= n * a by {
        assert(p * a + a <= n * a) by (nonlinear_arith)
            requires
                0 <= p < n,
                a >= 0,
        ;
    }
}

} // verus!
