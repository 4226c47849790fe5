use gui_gpu::gui_gpu::value::{Value, ValueType, ZERO_BITS};

const ALL: [ValueType; 7] = [
    ValueType::Real,
    ValueType::Complex,
    ValueType::Polar,
    ValueType::Angle,
    ValueType::Proportion,
    ValueType::RgbColor,
    ValueType::RgbaColor,
];

fn components(v: Value) -> Vec<u32> {
    match v {
        Value::Real(a) | Value::Angle(a) | Value::Proportion(a) => vec![a],
        Value::Complex(a, b) | Value::Polar(a, b) => vec![a, b],
        Value::RgbColor(a, b, c) => vec![a, b, c],
        Value::RgbaColor(a, b, c, d) => vec![a, b, c, d],
    }
}

#[test]
fn sizes_match_wgsl_types() {
    let sizes: Vec<usize> = ALL.iter().map(|t| t.size()).collect();
    assert_eq!(sizes, vec![4, 8, 8, 4, 4, 12, 16]);
}

#[test]
fn alignments_match_wgsl_types() {
    let aligns: Vec<usize> = ALL.iter().map(|t| t.align()).collect();
    assert_eq!(aligns, vec![4, 8, 8, 4, 4, 16, 16]);
}

#[test]
fn vec3_is_aligned_like_vec4() {
    assert_eq!(ValueType::RgbColor.size(), 12);
    assert_eq!(ValueType::RgbColor.align(), ValueType::RgbaColor.align());
}

#[test]
fn layout_law_holds_for_every_type() {
    for t in ALL {
        let n = components(t.default_value()).len();
        assert_eq!(t.size(), 4 * n);
        assert!(t.size() <= t.align());
        assert!(t.align().is_power_of_two());
    }
}

#[test]
fn default_values_are_zero_of_their_type() {
    assert_eq!(ValueType::Real.default_value(), Value::Real(0));
    assert_eq!(ValueType::Complex.default_value(), Value::Complex(0, 0));
    assert_eq!(ValueType::Polar.default_value(), Value::Polar(0, 0));
    assert_eq!(ValueType::Angle.default_value(), Value::Angle(0));
    assert_eq!(ValueType::Proportion.default_value(), Value::Proportion(0));
    assert_eq!(ValueType::RgbColor.default_value(), Value::RgbColor(0, 0, 0));
    assert_eq!(ValueType::RgbaColor.default_value(), Value::RgbaColor(0, 0, 0, 0));
}

#[test]
fn zero_bits_are_the_bits_of_zero() {
    assert_eq!(ZERO_BITS, 0.0f32.to_bits());
    for t in ALL {
        for c in components(t.default_value()) {
            assert_eq!(f32::from_bits(c), 0.0);
        }
    }
}
