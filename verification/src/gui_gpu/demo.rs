//! The pass sequence that the viewer runs: pixel coordinates are mapped to
//! the complex plane, a complex function is applied, the result is turned
//! into polar form and colored, and the color buffer is painted.

use crate::gui_gpu::id::{Id, IdMap};
use crate::gui_gpu::plan::{lemma_sixteen_bytes_per_pixel_fit, plan_sequence, SequencePlan};
use crate::gui_gpu::value::ValueType;
use crate::gui_gpu::{
    PassDescriptor, PassInstanceDescriptor, PassSequenceDescriptor, PassStorageBufferBinding,
    PassStorageBufferDescriptor, SharedBufferDescriptor,
};
use vstd::prelude::*;

verus! {

/// A storage buffer declaration as plain values: binding, name, element type, writable.
pub open spec fn storage_shape(d: PassStorageBufferDescriptor) -> (u32, Seq<char>, ValueType, bool) {
    (d.binding, d.name@, d.element_type, d.writable)
}

/// A pass as plain values: shader path, name, number of uniform buffers, storage buffers.
pub open spec fn pass_shape(pd: PassDescriptor) -> (
    Seq<char>,
    Seq<char>,
    nat,
    Seq<(u32, Seq<char>, ValueType, bool)>,
) {
    (
        pd.shader_source_path@,
        pd.name@,
        pd.uniform_buffer_descriptors@.len(),
        pd.storage_buffer_descriptors@.map_values(|s: PassStorageBufferDescriptor| storage_shape(s)),
    )
}

/// A storage binding of an instance as plain values: binding, and the name
/// and element type of the shared buffer it binds.
pub open spec fn binding_shape(d: PassSequenceDescriptor, b: PassStorageBufferBinding) -> (
    u32,
    Seq<char>,
    ValueType,
) {
    let buffer = d.shared_buffers@[b.buffer_id.0];
    (b.binding, buffer.name@, buffer.element_type)
}

/// The pass that the instance at index `i` runs.
pub open spec fn instance_pass(d: PassSequenceDescriptor, i: int) -> PassDescriptor {
    d.passes@[d.pass_instances@[i].pass_id.0]
}

/// The storage bindings of the instance at index `i`, as plain values.
pub open spec fn instance_bindings(d: PassSequenceDescriptor, i: int) -> Seq<(u32, Seq<char>, ValueType)> {
    d.pass_instances@[i].storage_buffer_bindings@.map_values(
        |b: PassStorageBufferBinding| binding_shape(d, b),
    )
}

/// The passes of the viewer's sequence as plain values, in the order in
/// which its instances run them: pixel coordinates to complex, complex
/// function, complex to polar, polar to color.
pub open spec fn demo_pass_shape(i: int) -> (
    Seq<char>,
    Seq<char>,
    nat,
    Seq<(u32, Seq<char>, ValueType, bool)>,
) {
    if i == 0 {
        (
            "shaders/pixel_to_complex.wgsl"@,
            "Pixel coordinates to complex"@,
            0nat,
            seq![(1u32, "Complex plane"@, ValueType::Complex, true)],
        )
    } else if i == 1 {
        (
            "shaders/complex_function.wgsl"@,
            "Complex function"@,
            0nat,
            seq![
                (1u32, "Input"@, ValueType::Complex, false),
                (2u32, "Output"@, ValueType::Complex, true),
            ],
        )
    } else if i == 2 {
        (
            "shaders/complex_to_polar.wgsl"@,
            "Complex to polar"@,
            0nat,
            seq![
                (1u32, "Complex"@, ValueType::Complex, false),
                (2u32, "Polar"@, ValueType::Polar, true),
            ],
        )
    } else {
        (
            "shaders/polar_to_color.wgsl"@,
            "Polar to color"@,
            0nat,
            seq![
                (1u32, "Polar"@, ValueType::Polar, false),
                (2u32, "Color"@, ValueType::RgbColor, true),
            ],
        )
    }
}

/// The shared buffers of the viewer's sequence as plain values (name and
/// element type): complex, second complex, polar, color.
pub open spec fn demo_buffer_shape(i: int) -> (Seq<char>, ValueType) {
    if i == 0 {
        ("Complex buffer"@, ValueType::Complex)
    } else if i == 1 {
        ("Complex buffer 2"@, ValueType::Complex)
    } else if i == 2 {
        ("Polar buffer"@, ValueType::Polar)
    } else {
        ("Color buffer"@, ValueType::RgbColor)
    }
}

/// The viewer's sequence, pass by pass: what each instance runs and binds.
pub open spec fn is_demo_sequence(d: PassSequenceDescriptor) -> bool {
    &&& pass_shape(instance_pass(d, 0)) == demo_pass_shape(0)
    &&& instance_bindings(d, 0) == seq![(1u32, "Complex buffer"@, ValueType::Complex)]
    &&& pass_shape(instance_pass(d, 1)) == demo_pass_shape(1)
    &&& instance_bindings(d, 1) == seq![
        (1u32, "Complex buffer"@, ValueType::Complex),
        (2u32, "Complex buffer 2"@, ValueType::Complex),
    ]
    &&& pass_shape(instance_pass(d, 2)) == demo_pass_shape(2)
    &&& instance_bindings(d, 2) == seq![
        (1u32, "Complex buffer 2"@, ValueType::Complex),
        (2u32, "Polar buffer"@, ValueType::Polar),
    ]
    &&& pass_shape(instance_pass(d, 3)) == demo_pass_shape(3)
    &&& instance_bindings(d, 3) == seq![
        (1u32, "Polar buffer"@, ValueType::Polar),
        (2u32, "Color buffer"@, ValueType::RgbColor),
    ]
    &&& d.shared_buffers@[d.painted_buffer_id.0].name@ == "Color buffer"@
}

/// The storage bindings of an instance as plain values: binding and buffer identifier.
pub open spec fn binding_pairs(inst: PassInstanceDescriptor) -> Seq<(u32, Id)> {
    inst.storage_buffer_bindings@.map_values(|b: PassStorageBufferBinding| (b.binding, b.buffer_id))
}

/// Which of the four passes the passes map holds under key `k`, where the
/// passes are inserted in the order 0, 2, 3, 1: the last one inserted with
/// that identifier.
pub open spec fn demo_pass_index(pass_ids: (Id, Id, Id, Id), k: u64) -> int {
    if k == pass_ids.1.0 {
        1
    } else if k == pass_ids.3.0 {
        3
    } else if k == pass_ids.2.0 {
        2
    } else {
        0
    }
}

/// Which of the four shared buffers the buffers map holds under key `k`,
/// where the buffers are inserted in the order 0, 1, 2, 3: the last one
/// inserted with that identifier.
pub open spec fn demo_buffer_index(buffer_ids: (Id, Id, Id, Id), k: u64) -> int {
    if k == buffer_ids.3.0 {
        3
    } else if k == buffer_ids.2.0 {
        2
    } else if k == buffer_ids.1.0 {
        1
    } else {
        0
    }
}

/// The viewer's sequence built with the given identifiers: `pass_ids` for
/// the four passes and `buffer_ids` for the four shared buffers, each in the
/// order of `demo_pass_shape` and `demo_buffer_shape`. Each map holds the
/// four identifiers, each key mapped to the last descriptor inserted under
/// it; the instances run the passes in order and chain the buffers; the
/// fourth (color) buffer is painted.
pub open spec fn is_demo_sequence_from_ids(
    d: PassSequenceDescriptor,
    pass_ids: (Id, Id, Id, Id),
    buffer_ids: (Id, Id, Id, Id),
) -> bool {
    &&& d.passes@.dom() == set![pass_ids.0.0, pass_ids.1.0, pass_ids.2.0, pass_ids.3.0]
    &&& forall|k: u64| #[trigger]
        d.passes@.contains_key(k) ==> {
            &&& d.passes@[k].id == Id(k)
            &&& pass_shape(d.passes@[k]) == demo_pass_shape(demo_pass_index(pass_ids, k))
        }
    &&& d.shared_buffers@.dom() == set![
        buffer_ids.0.0,
        buffer_ids.1.0,
        buffer_ids.2.0,
        buffer_ids.3.0,
    ]
    &&& forall|k: u64| #[trigger]
        d.shared_buffers@.contains_key(k) ==> {
            &&& d.shared_buffers@[k].id == Id(k)
            &&& (d.shared_buffers@[k].name@, d.shared_buffers@[k].element_type) == demo_buffer_shape(
                demo_buffer_index(buffer_ids, k),
            )
        }
    &&& d.pass_instances@.len() == 4
    &&& d.pass_instances@[0].pass_id == pass_ids.0
    &&& binding_pairs(d.pass_instances@[0]) == seq![(1u32, buffer_ids.0)]
    &&& d.pass_instances@[1].pass_id == pass_ids.1
    &&& binding_pairs(d.pass_instances@[1]) == seq![(1u32, buffer_ids.0), (2u32, buffer_ids.1)]
    &&& d.pass_instances@[2].pass_id == pass_ids.2
    &&& binding_pairs(d.pass_instances@[2]) == seq![(1u32, buffer_ids.1), (2u32, buffer_ids.2)]
    &&& d.pass_instances@[3].pass_id == pass_ids.3
    &&& binding_pairs(d.pass_instances@[3]) == seq![(1u32, buffer_ids.2), (2u32, buffer_ids.3)]
    &&& d.painted_buffer_id == buffer_ids.3
}

/// What holds of the viewer's sequence whatever identifiers it was built
/// with: the instances bind storage bindings 1, then 1 and 2 three times;
/// each instance reads the buffer that the one before it wrote; the painted
/// buffer is the one the last instance writes, the "Color buffer" of RGB colors.
pub open spec fn is_chained_demo_sequence(d: PassSequenceDescriptor) -> bool {
    let inst = d.pass_instances@;
    &&& inst.len() == 4
    &&& binding_pairs(inst[0]).len() == 1
    &&& binding_pairs(inst[0])[0].0 == 1
    &&& forall|i: int|
        1 <= i < 4 ==> {
            &&& #[trigger] binding_pairs(inst[i]).len() == 2
            &&& binding_pairs(inst[i])[0].0 == 1
            &&& binding_pairs(inst[i])[1].0 == 2
        }
    &&& binding_pairs(inst[1])[0].1 == binding_pairs(inst[0])[0].1
    &&& binding_pairs(inst[2])[0].1 == binding_pairs(inst[1])[1].1
    &&& binding_pairs(inst[3])[0].1 == binding_pairs(inst[2])[1].1
    &&& d.painted_buffer_id == binding_pairs(inst[3])[1].1
    &&& d.shared_buffers@.contains_key(d.painted_buffer_id.0)
    &&& d.shared_buffers@[d.painted_buffer_id.0].name@ == "Color buffer"@
    &&& d.shared_buffers@[d.painted_buffer_id.0].element_type == ValueType::RgbColor
}

/// What `demo_sequence_descriptor` returns, whatever identifiers are drawn:
/// a well-formed, chained descriptor of four pass instances that, unless two
/// random identifiers collided (then a map holds fewer than four entries),
/// is the viewer's sequence and binds to every instance buffers of the
/// types its pass declares.
pub open spec fn is_fresh_demo_sequence(d: PassSequenceDescriptor) -> bool {
    &&& d.well_formed()
    &&& is_chained_demo_sequence(d)
    &&& d.passes@.len() <= 4
    &&& d.shared_buffers@.len() <= 4
    &&& d.passes@.len() == 4 && d.shared_buffers@.len() == 4 ==> {
        &&& is_demo_sequence(d)
        &&& d.bindings_match_passes()
    }
}

/// A set of four elements holds four of them only if they differ.
proof fn lemma_four_elements_distinct(a: u64, b: u64, c: u64, e: u64)
    ensures
        set![a, b, c, e].len() <= 4,
        set![a, b, c, e].len() == 4 ==> a != b && a != c && a != e && b != c && b != e && c != e,
{
    let s0 = Set::<u64>::empty();
    let s1 = s0.insert(a);
    let s2 = s1.insert(b);
    let s3 = s2.insert(c);
    let s4 = s3.insert(e);
    assert(set![a, b, c, e] =~= s4);
    assert(s1.len() <= 1);
    assert(s2.len() <= 2);
    assert(s3.len() <= 3);
    assert(s4.len() <= 4);
    if a == b {
        assert(s2 =~= s1);
    }
    if a == c || b == c {
        assert(s3 =~= s2);
    }
    if a == e || b == e || c == e {
        assert(s4 =~= s3);
    }
}

/// A sequence built from any identifiers is well formed and chained, and,
/// when the identifiers differ, it is the viewer's sequence with matching
/// buffer types.
pub proof fn lemma_demo_sequence_from_ids_is_fresh(
    d: PassSequenceDescriptor,
    pass_ids: (Id, Id, Id, Id),
    buffer_ids: (Id, Id, Id, Id),
)
    requires
        is_demo_sequence_from_ids(d, pass_ids, buffer_ids),
    ensures
        is_fresh_demo_sequence(d),
{
    let inst = d.pass_instances@;
    lemma_four_elements_distinct(pass_ids.0.0, pass_ids.1.0, pass_ids.2.0, pass_ids.3.0);
    lemma_four_elements_distinct(buffer_ids.0.0, buffer_ids.1.0, buffer_ids.2.0, buffer_ids.3.0);
    assert(d.passes@.len() == d.passes@.dom().len());
    assert(d.shared_buffers@.len() == d.shared_buffers@.dom().len());
    // every binding names one of the four buffers
    assert forall|i: int| 0 <= i < 4 implies forall|j: int|
        0 <= j < #[trigger] inst[i].storage_buffer_bindings@.len() ==> d.shared_buffers@.contains_key(
            inst[i].storage_buffer_bindings@[j].buffer_id.0,
        ) by {
        assert forall|j: int| 0 <= j < inst[i].storage_buffer_bindings@.len() implies d.shared_buffers@.contains_key(
            inst[i].storage_buffer_bindings@[j].buffer_id.0,
        ) by {
            let id = inst[i].storage_buffer_bindings@[j].buffer_id;
            assert(binding_pairs(inst[i])[j] == (inst[i].storage_buffer_bindings@[j].binding, id));
            assert(id == buffer_ids.0 || id == buffer_ids.1 || id == buffer_ids.2 || id
                == buffer_ids.3) by {
                assert(binding_pairs(inst[i]).len() == inst[i].storage_buffer_bindings@.len());
                if i == 0 {
                    assert(binding_pairs(inst[0])[j] == seq![(1u32, buffer_ids.0)][j]);
                } else if i == 1 {
                    assert(binding_pairs(inst[1])[j] == seq![
                        (1u32, buffer_ids.0),
                        (2u32, buffer_ids.1),
                    ][j]);
                } else if i == 2 {
                    assert(binding_pairs(inst[2])[j] == seq![
                        (1u32, buffer_ids.1),
                        (2u32, buffer_ids.2),
                    ][j]);
                } else {
                    assert(binding_pairs(inst[3])[j] == seq![
                        (1u32, buffer_ids.2),
                        (2u32, buffer_ids.3),
                    ][j]);
                }
            }
        }
    }
    assert(d.bindings_name_buffers());
    assert(d.instances_name_passes());
    assert(d.keyed_by_id());
    assert(demo_buffer_index(buffer_ids, buffer_ids.3.0) == 3);
    assert(d.shared_buffers@.contains_key(buffer_ids.3.0));
    assert forall|i: int| 1 <= i < 4 implies {
        &&& #[trigger] binding_pairs(inst[i]).len() == 2
        &&& binding_pairs(inst[i])[0].0 == 1
        &&& binding_pairs(inst[i])[1].0 == 2
    } by {
        if i == 1 {
        } else if i == 2 {
        } else {
        }
    }
    assert(is_chained_demo_sequence(d));
    if d.passes@.len() == 4 && d.shared_buffers@.len() == 4 {
        assert(demo_pass_index(pass_ids, pass_ids.0.0) == 0);
        assert(demo_pass_index(pass_ids, pass_ids.1.0) == 1);
        assert(demo_pass_index(pass_ids, pass_ids.2.0) == 2);
        assert(demo_pass_index(pass_ids, pass_ids.3.0) == 3);
        assert(demo_buffer_index(buffer_ids, buffer_ids.0.0) == 0);
        assert(demo_buffer_index(buffer_ids, buffer_ids.1.0) == 1);
        assert(demo_buffer_index(buffer_ids, buffer_ids.2.0) == 2);
        assert(d.passes@.contains_key(pass_ids.0.0));
        assert(d.passes@.contains_key(pass_ids.1.0));
        assert(d.passes@.contains_key(pass_ids.2.0));
        assert(d.passes@.contains_key(pass_ids.3.0));
        assert(d.shared_buffers@.contains_key(buffer_ids.0.0));
        assert(d.shared_buffers@.contains_key(buffer_ids.1.0));
        assert(d.shared_buffers@.contains_key(buffer_ids.2.0));
        assert forall|i: int| 0 <= i < 4 implies #[trigger] instance_bindings(d, i) == binding_pairs(
            inst[i],
        ).map_values(
            |p: (u32, Id)|
                (p.0, d.shared_buffers@[p.1.0].name@, d.shared_buffers@[p.1.0].element_type),
        ) by {
            assert(instance_bindings(d, i) =~= binding_pairs(inst[i]).map_values(
                |p: (u32, Id)|
                    (p.0, d.shared_buffers@[p.1.0].name@, d.shared_buffers@[p.1.0].element_type),
            ));
        }
        assert(instance_bindings(d, 0) =~= seq![(1u32, "Complex buffer"@, ValueType::Complex)]);
        assert(instance_bindings(d, 1) =~= seq![
            (1u32, "Complex buffer"@, ValueType::Complex),
            (2u32, "Complex buffer 2"@, ValueType::Complex),
        ]);
        assert(instance_bindings(d, 2) =~= seq![
            (1u32, "Complex buffer 2"@, ValueType::Complex),
            (2u32, "Polar buffer"@, ValueType::Polar),
        ]);
        assert(instance_bindings(d, 3) =~= seq![
            (1u32, "Polar buffer"@, ValueType::Polar),
            (2u32, "Color buffer"@, ValueType::RgbColor),
        ]);
        assert(is_demo_sequence(d));
        lemma_demo_bindings_match(d);
    }
}

/// Data flows forward through the viewer's sequence. Whatever identifiers it
/// is built with, every pass writes its last storage buffer and only reads
/// the ones before it. When the identifiers differ, each instance's pass
/// declares writable the buffer the instance hands on (its last binding) and
/// declares read-only the buffer it takes from the instance before (its
/// first binding, for every instance after the first).
pub proof fn lemma_demo_data_flows_forward(
    d: PassSequenceDescriptor,
    pass_ids: (Id, Id, Id, Id),
    buffer_ids: (Id, Id, Id, Id),
)
    requires
        is_demo_sequence_from_ids(d, pass_ids, buffer_ids),
    ensures
        forall|k: u64| #[trigger]
            d.passes@.contains_key(k) ==> {
                let ss = d.passes@[k].storage_buffer_descriptors@;
                &&& ss.len() >= 1
                &&& ss[ss.len() - 1].writable
                &&& forall|j: int| 0 <= j < ss.len() - 1 ==> !#[trigger] ss[j].writable
            },
        d.passes@.len() == 4 && d.shared_buffers@.len() == 4 ==> forall|i: int|
            0 <= i < 4 ==> {
                let bs = #[trigger] d.pass_instances@[i].storage_buffer_bindings@;
                let ss = instance_pass(d, i).storage_buffer_descriptors@;
                &&& ss.len() == bs.len()
                &&& ss.len() >= 1
                &&& ss[ss.len() - 1].binding == bs[bs.len() - 1].binding
                &&& ss[ss.len() - 1].writable
                &&& i >= 1 ==> ss[0].binding == bs[0].binding && !ss[0].writable
            },
{
    assert forall|k: u64| #[trigger] d.passes@.contains_key(k) implies {
        let ss = d.passes@[k].storage_buffer_descriptors@;
        &&& ss.len() >= 1
        &&& ss[ss.len() - 1].writable
        &&& forall|j: int| 0 <= j < ss.len() - 1 ==> !#[trigger] ss[j].writable
    } by {
        let ss = d.passes@[k].storage_buffer_descriptors@;
        let shape = pass_shape(d.passes@[k]).3;
        let idx = demo_pass_index(pass_ids, k);
        assert(shape == demo_pass_shape(idx).3);
        assert(shape.len() == ss.len());
        assert forall|j: int| 0 <= j < ss.len() implies #[trigger] ss[j].writable == shape[j].3 by {
            assert(shape[j] == storage_shape(ss[j]));
        }
        assert(ss[ss.len() - 1].writable == shape[ss.len() - 1].3);
    }
    if d.passes@.len() == 4 && d.shared_buffers@.len() == 4 {
        lemma_demo_sequence_from_ids_is_fresh(d, pass_ids, buffer_ids);
        assert forall|i: int| 0 <= i < 4 implies {
            let bs = #[trigger] d.pass_instances@[i].storage_buffer_bindings@;
            let ss = instance_pass(d, i).storage_buffer_descriptors@;
            &&& ss.len() == bs.len()
            &&& ss.len() >= 1
            &&& ss[ss.len() - 1].binding == bs[bs.len() - 1].binding
            &&& ss[ss.len() - 1].writable
            &&& i >= 1 ==> ss[0].binding == bs[0].binding && !ss[0].writable
        } by {
            let bs = d.pass_instances@[i].storage_buffer_bindings@;
            let ss = instance_pass(d, i).storage_buffer_descriptors@;
            let shape = pass_shape(instance_pass(d, i)).3;
            let pairs = binding_pairs(d.pass_instances@[i]);
            assert(shape == demo_pass_shape(i).3);
            assert(shape.len() == ss.len());
            assert(pairs.len() == bs.len());
            assert forall|j: int| 0 <= j < ss.len() implies #[trigger] ss[j].writable == shape[j].3
                && ss[j].binding == shape[j].0 by {
                assert(shape[j] == storage_shape(ss[j]));
            }
            assert forall|j: int| 0 <= j < bs.len() implies #[trigger] bs[j].binding == pairs[j].0 by {
            }
            assert(ss[ss.len() - 1].writable == shape[ss.len() - 1].3);
            assert(ss[ss.len() - 1].binding == shape[ss.len() - 1].0);
            assert(bs[bs.len() - 1].binding == pairs[bs.len() - 1].0);
            assert(ss[0].binding == shape[0].0);
            assert(bs[0].binding == pairs[0].0);
        }
    }
}

/// In the viewer's sequence every instance binds buffers of the types its pass declares.
proof fn lemma_demo_bindings_match(d: PassSequenceDescriptor)
    requires
        is_demo_sequence(d),
        d.pass_instances@.len() == 4,
    ensures
        d.bindings_match_passes(),
{
    assert forall|i: int| 0 <= i < d.pass_instances@.len() implies {
        let inst = #[trigger] d.pass_instances@[i];
        let pass = d.passes@[inst.pass_id.0];
        &&& inst.storage_buffer_bindings@.len() == pass.storage_buffer_descriptors@.len()
        &&& forall|j: int|
            0 <= j < inst.storage_buffer_bindings@.len() ==> {
                let b = #[trigger] inst.storage_buffer_bindings@[j];
                let s = pass.storage_buffer_descriptors@[j];
                &&& b.binding == s.binding
                &&& d.shared_buffers@[b.buffer_id.0].element_type == s.element_type
            }
    } by {
        let inst = d.pass_instances@[i];
        let pass = d.passes@[inst.pass_id.0];
        let ib = instance_bindings(d, i);
        let ps = pass_shape(instance_pass(d, i)).3;
        assert(ib.len() == ps.len());
        assert forall|j: int| 0 <= j < inst.storage_buffer_bindings@.len() implies {
            let b = #[trigger] inst.storage_buffer_bindings@[j];
            let s = pass.storage_buffer_descriptors@[j];
            &&& b.binding == s.binding
            &&& d.shared_buffers@[b.buffer_id.0].element_type == s.element_type
        } by {
            assert(ib[j] == binding_shape(d, inst.storage_buffer_bindings@[j]));
            assert(ps[j] == storage_shape(pass.storage_buffer_descriptors@[j]));
            assert(ib[j].0 == ps[j].0 && ib[j].2 == ps[j].2);
        }
    }
}

fn storage_buffer(
    binding: u32,
    name: &str,
    element_type: ValueType,
    writable: bool,
) -> (d: PassStorageBufferDescriptor)
    ensures
        storage_shape(d) == (binding, name@, element_type, writable),
{
    PassStorageBufferDescriptor { binding, name: name.to_string(), element_type, writable }
}

fn pass(
    id: Id,
    shader_source_path: &str,
    name: &str,
    storage_buffer_descriptors: Vec<PassStorageBufferDescriptor>,
) -> (pd: PassDescriptor)
    ensures
        pd.id == id,
        pass_shape(pd) == (
            shader_source_path@,
            name@,
            0nat,
            storage_buffer_descriptors@.map_values(|s: PassStorageBufferDescriptor| storage_shape(s)),
        ),
{
    PassDescriptor {
        id,
        shader_source_path: shader_source_path.to_string(),
        name: name.to_string(),
        uniform_buffer_descriptors: Vec::new(),
        storage_buffer_descriptors,
    }
}

fn shared_buffer(id: Id, name: &str, element_type: ValueType) -> (d: SharedBufferDescriptor)
    ensures
        d.id == id,
        d.name@ == name@,
        d.element_type == element_type,
{
    SharedBufferDescriptor { id, name: name.to_string(), element_type }
}

/// The descriptor of the viewer's pass sequence built with the given
/// identifiers: `pass_ids` for the passes pixel to complex, complex
/// function, complex to polar and polar to color; `buffer_ids` for the
/// complex, second complex, polar and color buffers.
pub fn demo_sequence_from_ids(pass_ids: (Id, Id, Id, Id), buffer_ids: (Id, Id, Id, Id)) -> (d:
    PassSequenceDescriptor)
    ensures
        is_demo_sequence_from_ids(d, pass_ids, buffer_ids),
{
    broadcast use vstd::std_specs::hash::group_hash_axioms;

    let mut s0: Vec<PassStorageBufferDescriptor> = Vec::new();
    s0.push(storage_buffer(1, "Complex plane", ValueType::Complex, true));
    let pixel_to_complex = pass(
        pass_ids.0,
        "shaders/pixel_to_complex.wgsl",
        "Pixel coordinates to complex",
        s0,
    );

    let mut s1: Vec<PassStorageBufferDescriptor> = Vec::new();
    s1.push(storage_buffer(1, "Input", ValueType::Complex, false));
    s1.push(storage_buffer(2, "Output", ValueType::Complex, true));
    let complex_function = pass(
        pass_ids.1,
        "shaders/complex_function.wgsl",
        "Complex function",
        s1,
    );

    let mut s2: Vec<PassStorageBufferDescriptor> = Vec::new();
    s2.push(storage_buffer(1, "Complex", ValueType::Complex, false));
    s2.push(storage_buffer(2, "Polar", ValueType::Polar, true));
    let complex_to_polar = pass(
        pass_ids.2,
        "shaders/complex_to_polar.wgsl",
        "Complex to polar",
        s2,
    );

    let mut s3: Vec<PassStorageBufferDescriptor> = Vec::new();
    s3.push(storage_buffer(1, "Polar", ValueType::Polar, false));
    s3.push(storage_buffer(2, "Color", ValueType::RgbColor, true));
    let polar_to_color = pass(pass_ids.3, "shaders/polar_to_color.wgsl", "Polar to color", s3);

    let complex_buffer = shared_buffer(buffer_ids.0, "Complex buffer", ValueType::Complex);
    let complex_buffer_2 = shared_buffer(buffer_ids.1, "Complex buffer 2", ValueType::Complex);
    let polar_buffer = shared_buffer(buffer_ids.2, "Polar buffer", ValueType::Polar);
    let color_buffer = shared_buffer(buffer_ids.3, "Color buffer", ValueType::RgbColor);

    let mut b0: Vec<PassStorageBufferBinding> = Vec::new();
    b0.push(PassStorageBufferBinding { binding: 1, buffer_id: complex_buffer.id });
    let pixel_to_complex_instance = PassInstanceDescriptor {
        pass_id: pixel_to_complex.id,
        storage_buffer_bindings: b0,
    };

    let mut b1: Vec<PassStorageBufferBinding> = Vec::new();
    b1.push(PassStorageBufferBinding { binding: 1, buffer_id: complex_buffer.id });
    b1.push(PassStorageBufferBinding { binding: 2, buffer_id: complex_buffer_2.id });
    let complex_function_instance = PassInstanceDescriptor {
        pass_id: complex_function.id,
        storage_buffer_bindings: b1,
    };

    let mut b2: Vec<PassStorageBufferBinding> = Vec::new();
    b2.push(PassStorageBufferBinding { binding: 1, buffer_id: complex_buffer_2.id });
    b2.push(PassStorageBufferBinding { binding: 2, buffer_id: polar_buffer.id });
    let complex_to_polar_instance = PassInstanceDescriptor {
        pass_id: complex_to_polar.id,
        storage_buffer_bindings: b2,
    };

    let mut b3: Vec<PassStorageBufferBinding> = Vec::new();
    b3.push(PassStorageBufferBinding { binding: 1, buffer_id: polar_buffer.id });
    b3.push(PassStorageBufferBinding { binding: 2, buffer_id: color_buffer.id });
    let polar_to_color_instance = PassInstanceDescriptor {
        pass_id: polar_to_color.id,
        storage_buffer_bindings: b3,
    };

    let painted_buffer_id = color_buffer.id;
    let ghost p0 = pixel_to_complex;
    let ghost p1 = complex_function;
    let ghost p2 = complex_to_polar;
    let ghost p3 = polar_to_color;
    let ghost c0 = complex_buffer;
    let ghost c1 = complex_buffer_2;
    let ghost c2 = polar_buffer;
    let ghost c3 = color_buffer;

    let mut passes: IdMap<PassDescriptor> = IdMap::new();
    passes.insert(pixel_to_complex.id.0, pixel_to_complex);
    passes.insert(complex_to_polar.id.0, complex_to_polar);
    passes.insert(polar_to_color.id.0, polar_to_color);
    passes.insert(complex_function.id.0, complex_function);

    let mut shared_buffers: IdMap<SharedBufferDescriptor> = IdMap::new();
    shared_buffers.insert(complex_buffer.id.0, complex_buffer);
    shared_buffers.insert(complex_buffer_2.id.0, complex_buffer_2);
    shared_buffers.insert(polar_buffer.id.0, polar_buffer);
    shared_buffers.insert(color_buffer.id.0, color_buffer);

    let mut pass_instances: Vec<PassInstanceDescriptor> = Vec::new();
    pass_instances.push(pixel_to_complex_instance);
    pass_instances.push(complex_function_instance);
    pass_instances.push(complex_to_polar_instance);
    pass_instances.push(polar_to_color_instance);

    let d = PassSequenceDescriptor { passes, shared_buffers, pass_instances, painted_buffer_id };
    proof {
        let pm = Map::<u64, PassDescriptor>::empty().insert(p0.id.0, p0).insert(p2.id.0, p2).insert(
            p3.id.0,
            p3,
        ).insert(p1.id.0, p1);
        assert(d.passes@ =~= pm);
        let bm = Map::<u64, SharedBufferDescriptor>::empty().insert(c0.id.0, c0).insert(
            c1.id.0,
            c1,
        ).insert(c2.id.0, c2).insert(c3.id.0, c3);
        assert(d.shared_buffers@ =~= bm);
        assert(pass_shape(p0).3 =~= demo_pass_shape(0).3);
        assert(pass_shape(p1).3 =~= demo_pass_shape(1).3);
        assert(pass_shape(p2).3 =~= demo_pass_shape(2).3);
        assert(pass_shape(p3).3 =~= demo_pass_shape(3).3);
        assert(d.passes@.dom() =~= set![pass_ids.0.0, pass_ids.1.0, pass_ids.2.0, pass_ids.3.0]);
        assert(d.shared_buffers@.dom() =~= set![
            buffer_ids.0.0,
            buffer_ids.1.0,
            buffer_ids.2.0,
            buffer_ids.3.0,
        ]);
        assert(binding_pairs(d.pass_instances@[0]) =~= seq![(1u32, buffer_ids.0)]);
        assert(binding_pairs(d.pass_instances@[1]) =~= seq![
            (1u32, buffer_ids.0),
            (2u32, buffer_ids.1),
        ]);
        assert(binding_pairs(d.pass_instances@[2]) =~= seq![
            (1u32, buffer_ids.1),
            (2u32, buffer_ids.2),
        ]);
        assert(binding_pairs(d.pass_instances@[3]) =~= seq![
            (1u32, buffer_ids.2),
            (2u32, buffer_ids.3),
        ]);
    }
    d
}

/// The descriptor of the viewer's pass sequence, with fresh random
/// identifiers drawn in the order of the original sequence: the four
/// passes, then the four shared buffers.
pub fn demo_sequence_descriptor() -> (d: PassSequenceDescriptor)
    ensures
        exists|pass_ids: (Id, Id, Id, Id), buffer_ids: (Id, Id, Id, Id)|
            #[trigger] is_demo_sequence_from_ids(d, pass_ids, buffer_ids),
        is_fresh_demo_sequence(d),
{
    let pass_ids = (Id::new(), Id::new(), Id::new(), Id::new());
    let buffer_ids = (Id::new(), Id::new(), Id::new(), Id::new());
    let d = demo_sequence_from_ids(pass_ids, buffer_ids);
    proof {
        lemma_demo_sequence_from_ids_is_fresh(d, pass_ids, buffer_ids);
    }
    d
}

/// Width in pixels of the viewport that the viewer's sequence is planned for.
pub const VIEWPORT_SIZE_X: usize = 2400;

/// Height in pixels of the viewport that the viewer's sequence is planned for.
pub const VIEWPORT_SIZE_Y: usize = 1600;

/// The viewer's pass sequence and its plan.
pub struct RenderPlan {
    pub descriptor: PassSequenceDescriptor,
    pub sequence: SequencePlan,
}

/// Builds the viewer's pass sequence with fresh identifiers and plans it for
/// a viewport of `VIEWPORT_SIZE_X` by `VIEWPORT_SIZE_Y` pixels.
pub fn plan_render_resources() -> (plan: RenderPlan)
    ensures
        exists|pass_ids: (Id, Id, Id, Id), buffer_ids: (Id, Id, Id, Id)|
            #[trigger] is_demo_sequence_from_ids(plan.descriptor, pass_ids, buffer_ids),
        is_fresh_demo_sequence(plan.descriptor),
        plan.sequence.plans(plan.descriptor, VIEWPORT_SIZE_X, VIEWPORT_SIZE_Y),
{
    let descriptor = demo_sequence_descriptor();
    proof {
        lemma_sixteen_bytes_per_pixel_fit(descriptor, VIEWPORT_SIZE_X, VIEWPORT_SIZE_Y);
    }
    let sequence = plan_sequence(&descriptor, VIEWPORT_SIZE_X, VIEWPORT_SIZE_Y);
    let ghost drawn = descriptor;
    let plan = RenderPlan { descriptor, sequence };
    proof {
        let (pass_ids, buffer_ids) = choose|pass_ids: (Id, Id, Id, Id), buffer_ids: (Id, Id, Id, Id)|
            #[trigger] is_demo_sequence_from_ids(drawn, pass_ids, buffer_ids);
        assert(is_demo_sequence_from_ids(plan.descriptor, pass_ids, buffer_ids));
    }
    plan
}

} // verus!
