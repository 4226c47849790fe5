pub mod frame;
pub mod demo;
pub mod id;
pub mod plan;
pub mod value;

use crate::gui_gpu::id::{Id, IdMap};
use crate::gui_gpu::value::{Value, ValueType};
use vstd::prelude::*;

verus! {

/// A uniform buffer that a pass declares, beside the standard one at binding 0.
pub struct PassUniformBufferDescriptor {
    pub binding: u32,
    pub name: String,
    pub value_type: ValueType,
}

/// A storage buffer that a pass reads or writes, one element per pixel.
pub struct PassStorageBufferDescriptor {
    pub binding: u32,
    pub name: String,
    pub element_type: ValueType,
    pub writable: bool,
}

/// A compute pass: its shader and the buffers it binds.
pub struct PassDescriptor {
    pub id: Id,
    /// Path of the WGSL source of the compute shader.
    pub shader_source_path: String,
    pub name: String,
    pub uniform_buffer_descriptors: Vec<PassUniformBufferDescriptor>,
    pub storage_buffer_descriptors: Vec<PassStorageBufferDescriptor>,
}

/// The current value of one uniform of a pass instance.
pub struct PassUniformValue {
    pub binding: u32,
    pub value: Value,
}

/// Binds a shared buffer to a storage binding of a pass instance.
pub struct PassStorageBufferBinding {
    pub binding: u32,
    pub buffer_id: Id,
}

/// One run of a pass within a sequence, with its storage bindings.
pub struct PassInstanceDescriptor {
    pub pass_id: Id,
    pub storage_buffer_bindings: Vec<PassStorageBufferBinding>,
}

/// A buffer shared between pass instances, holding one element per pixel.
pub struct SharedBufferDescriptor {
    pub id: Id,
    pub name: String,
    pub element_type: ValueType,
}

/// A sequence of pass instances run in order every frame, and the shared
/// buffer whose contents are painted to the screen.
pub struct PassSequenceDescriptor {
    pub passes: IdMap<PassDescriptor>,
    pub shared_buffers: IdMap<SharedBufferDescriptor>,
    pub pass_instances: Vec<PassInstanceDescriptor>,
    pub painted_buffer_id: Id,
}

impl PassSequenceDescriptor {
    /// Every pass and shared buffer is stored under its own identifier.
    pub open spec fn keyed_by_id(self) -> bool {
        &&& forall|k: u64| #[trigger] self.passes@.contains_key(k) ==> self.passes@[k].id.0 == k
        &&& forall|k: u64| #[trigger] self.shared_buffers@.contains_key(k)
            ==> self.shared_buffers@[k].id.0 == k
    }

    /// Every pass instance names a pass of the sequence.
    pub open spec fn instances_name_passes(self) -> bool {
        forall|i: int|
            0 <= i < self.pass_instances@.len() ==> self.passes@.contains_key(
                #[trigger] self.pass_instances@[i].pass_id.0,
            )
    }

    /// Every storage binding of every pass instance names a shared buffer of the sequence.
    pub open spec fn bindings_name_buffers(self) -> bool {
        forall|i: int, j: int|
            0 <= i < self.pass_instances@.len() && 0 <= j
                < self.pass_instances@[i].storage_buffer_bindings@.len()
                ==> self.shared_buffers@.contains_key(
                #[trigger] self.pass_instances@[i].storage_buffer_bindings@[j].buffer_id.0,
            )
    }

    /// Every identifier that the sequence refers to resolves.
    pub open spec fn well_formed(self) -> bool {
        &&& self.keyed_by_id()
        &&& self.instances_name_passes()
        &&& self.bindings_name_buffers()
        &&& self.shared_buffers@.contains_key(self.painted_buffer_id.0)
    }

    /// Every pass instance binds, in order, exactly the storage bindings that
    /// its pass declares, each to a shared buffer of the declared element type.
    pub open spec fn bindings_match_passes(self) -> bool {
        forall|i: int|
            0 <= i < self.pass_instances@.len() ==> {
                let inst = #[trigger] self.pass_instances@[i];
                let pass = self.passes@[inst.pass_id.0];
                &&& inst.storage_buffer_bindings@.len() == pass.storage_buffer_descriptors@.len()
                &&& forall|j: int|
                    0 <= j < inst.storage_buffer_bindings@.len() ==> {
                        let b = #[trigger] inst.storage_buffer_bindings@[j];
                        let s = pass.storage_buffer_descriptors@[j];
                        &&& b.binding == s.binding
                        &&& self.shared_buffers@[b.buffer_id.0].element_type == s.element_type
                    }
            }
    }
}

} // verus!
