use vstd::prelude::*;

verus! {

/// The WGSL type of a value held in a GPU buffer.
#[derive(Debug, Clone, Copy, PartialEq, Eq, Structural)]
pub enum ValueType {
    /// WGSL `f32`, unbounded.
    Real,
    /// WGSL `vec2<f32>`: `x` is the real part, `y` the imaginary part.
    Complex,
    /// WGSL `vec2<f32>`: `x` is the magnitude, `y` the angle.
    Polar,
    /// WGSL `f32`, between zero (inclusive) and tau (exclusive).
    Angle,
    /// WGSL `f32`, between zero and one (both inclusive).
    Proportion,
    /// WGSL `vec3<f32>`: red, green and blue in linear color space.
    RgbColor,
    /// WGSL `vec4<f32>`: red, green, blue and alpha in linear color space.
    RgbaColor,
}

/// A value of one of the [`ValueType`]s. Each `f32` component is held as its
/// IEEE-754 bit pattern, the form in which it is written to a GPU buffer.
#[derive(Debug, Clone, Copy, PartialEq, Eq, Structural)]
pub enum Value {
    Real(u32),
    Complex(u32, u32),
    Polar(u32, u32),
    Angle(u32),
    Proportion(u32),
    RgbColor(u32, u32, u32),
    RgbaColor(u32, u32, u32, u32),
}

/// The bit pattern of the `f32` value `0.0`.
pub const ZERO_BITS: u32 = 0;

impl ValueType {
    /// Number of `f32` components of the WGSL type.
    pub open spec fn component_count(self) -> nat {
        match self {
            ValueType::Real => 1,
            ValueType::Complex => 2,
            ValueType::Polar => 2,
            ValueType::Angle => 1,
            ValueType::Proportion => 1,
            ValueType::RgbColor => 3,
            ValueType::RgbaColor => 4,
        }
    }

    /// Size in bytes of the WGSL type.
    pub open spec fn spec_size(self) -> usize {
        match self {
            ValueType::Real => 4,
            ValueType::Complex => 8,
            ValueType::Polar => 8,
            ValueType::Angle => 4,
            ValueType::Proportion => 4,
            ValueType::RgbColor => 12,
            ValueType::RgbaColor => 16,
        }
    }

    /// Alignment in bytes of the WGSL type (a `vec3<f32>` is aligned like a `vec4<f32>`).
    pub open spec fn spec_align(self) -> usize {
        match self {
            ValueType::Real => 4,
            ValueType::Complex => 8,
            ValueType::Polar => 8,
            ValueType::Angle => 4,
            ValueType::Proportion => 4,
            ValueType::RgbColor => 16,
            ValueType::RgbaColor => 16,
        }
    }

    /// The value of this type whose components are all `0.0`.
    pub open spec fn spec_default_value(self) -> Value {
        match self {
            ValueType::Real => Value::Real(ZERO_BITS),
            ValueType::Complex => Value::Complex(ZERO_BITS, ZERO_BITS),
            ValueType::Polar => Value::Polar(ZERO_BITS, ZERO_BITS),
            ValueType::Angle => Value::Angle(ZERO_BITS),
            ValueType::Proportion => Value::Proportion(ZERO_BITS),
            ValueType::RgbColor => Value::RgbColor(ZERO_BITS, ZERO_BITS, ZERO_BITS),
            ValueType::RgbaColor => Value::RgbaColor(ZERO_BITS, ZERO_BITS, ZERO_BITS, ZERO_BITS),
        }
    }

    /// Size in bytes of a value of this type in a GPU buffer.
    pub fn size(self) -> (size: usize)
        ensures
            size == self.spec_size(),
    {
        match self {
            ValueType::Real => 4,
            ValueType::Complex => 8,
            ValueType::Polar => 8,
            ValueType::Angle => 4,
            ValueType::Proportion => 4,
            ValueType::RgbColor => 12,
            ValueType::RgbaColor => 16,
        }
    }

    /// Alignment in bytes of a value of this type in a GPU buffer; also the
    /// stride of an array of such values.
    pub fn align(self) -> (align: usize)
        ensures
            align == self.spec_align(),
    {
        match self {
            ValueType::Real => 4,
            ValueType::Complex => 8,
            ValueType::Polar => 8,
            ValueType::Angle => 4,
            ValueType::Proportion => 4,
            ValueType::RgbColor => 16,
            ValueType::RgbaColor => 16,
        }
    }

    /// The value of this type whose components are all `0.0`.
    pub fn default_value(self) -> (value: Value)
        ensures
            value == self.spec_default_value(),
    {
        match self {
            ValueType::Real => Value::Real(ZERO_BITS),
            ValueType::Complex => Value::Complex(ZERO_BITS, ZERO_BITS),
            ValueType::Polar => Value::Polar(ZERO_BITS, ZERO_BITS),
            ValueType::Angle => Value::Angle(ZERO_BITS),
            ValueType::Proportion => Value::Proportion(ZERO_BITS),
            ValueType::RgbColor => Value::RgbColor(ZERO_BITS, ZERO_BITS, ZERO_BITS),
            ValueType::RgbaColor => Value::RgbaColor(ZERO_BITS, ZERO_BITS, ZERO_BITS, ZERO_BITS),
        }
    }
}

impl Value {
    /// The type of this value.
    pub open spec fn spec_value_type(self) -> ValueType {
        match self {
            Value::Real(..) => ValueType::Real,
            Value::Complex(..) => ValueType::Complex,
            Value::Polar(..) => ValueType::Polar,
            Value::Angle(..) => ValueType::Angle,
            Value::Proportion(..) => ValueType::Proportion,
            Value::RgbColor(..) => ValueType::RgbColor,
            Value::RgbaColor(..) => ValueType::RgbaColor,
        }
    }

    /// The bit patterns of the components, in WGSL order (`x`, `y`, `z`, `w`).
    pub open spec fn components(self) -> Seq<u32> {
        match self {
            Value::Real(a) => seq![a],
            Value::Complex(a, b) => seq![a, b],
            Value::Polar(a, b) => seq![a, b],
            Value::Angle(a) => seq![a],
            Value::Proportion(a) => seq![a],
            Value::RgbColor(a, b, c) => seq![a, b, c],
            Value::RgbaColor(a, b, c, d) => seq![a, b, c, d],
        }
    }
}

/// Every value type takes four bytes per `f32` component, and its alignment
/// is a power of two no smaller than its size.
pub proof fn lemma_value_type_layout(t: ValueType)
    ensures
        t.spec_size() == 4 * t.component_count(),
        t.spec_size() <= t.spec_align(),
        t.spec_align() == 4 || t.spec_align() == 8 || t.spec_align() == 16,
        t.spec_align() % 4 == 0,
{
}

/// The default value of a type has that type, the type's number of
/// components, and every component equal to `0.0`.
pub proof fn lemma_default_value_is_zero_of_type(t: ValueType)
    ensures
        t.spec_default_value().spec_value_type() == t,
        t.spec_default_value().components().len() == t.component_count(),
        forall|i: int|
            0 <= i < t.spec_default_value().components().len()
                ==> #[trigger] t.spec_default_value().components()[i] == 0u32,
{
}

/// The alignment of every value type is the smallest power of two that is
/// at least its size, as WGSL lays out `f32` and its vectors.
pub proof fn lemma_align_is_smallest_power_of_two_covering_size(t: ValueType)
    ensures
        exists|e: nat| #[trigger] vstd::arithmetic::power2::pow2(e) == t.spec_align(),
        t.spec_size() <= t.spec_align(),
        t.spec_align() < 2 * t.spec_size(),
{
    vstd::arithmetic::power2::lemma2_to64();
    if t.spec_align() == 4 {
        assert(vstd::arithmetic::power2::pow2(2) == 4);
    } else if t.spec_align() == 8 {
        assert(vstd::arithmetic::power2::pow2(3) == 8);
    } else {
        assert(vstd::arithmetic::power2::pow2(4) == 16);
    }
}

} // verus!
