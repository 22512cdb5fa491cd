//! Uniform values: host data under the shape the graphics context takes it in.
//!
//! A [`Uniform`] is a uniform type together with its 32-bit lanes, in memory
//! order. Its length always fits its type, so whoever uploads it can hand the
//! lanes to the context's call for that shape without looking at them. Each
//! constructor takes one kind of host value and keeps its lanes in order; the
//! uniform type it chooses is a declared view of the host type.
use crate::layout::{HostType, UniformShape, UniformType};
use crate::shader::ShaderProgram;
use crate::vector::{f32x2, f32x3, f32x4, Mat2, Mat4, Quat};
use vstd::prelude::*;

verus! {

/// The 32 bits of an integer, as an unsigned word.
pub open spec fn int_word(value: i32) -> u32 {
    if value >= 0 {
        value as u32
    } else {
        (value + 0x1_0000_0000) as u32
    }
}

/// The lanes of a two-lane vector, in order.
pub open spec fn lanes2(v: f32x2) -> Seq<u32> {
    seq![v.x, v.y]
}

/// The lanes of a three-lane vector, in order.
pub open spec fn lanes3(v: f32x3) -> Seq<u32> {
    seq![v.x, v.y, v.z]
}

/// The lanes of a four-lane vector, in order.
pub open spec fn lanes4(v: f32x4) -> Seq<u32> {
    seq![v.x, v.y, v.z, v.w]
}

/// The lanes of a 4x4 matrix, column after column.
pub open spec fn lanes16(m: Mat4) -> Seq<u32> {
    lanes4(m.x_axis) + lanes4(m.y_axis) + lanes4(m.z_axis) + lanes4(m.w_axis)
}

/// The sequences `each(i)` for `i` below `count`, one after the other.
pub open spec fn concat(count: nat, each: spec_fn(int) -> Seq<u32>) -> Seq<u32>
    decreases count,
{
    if count == 0 {
        Seq::empty()
    } else {
        concat((count - 1) as nat, each) + each(count - 1)
    }
}

/// A uniform type and the lanes of a value of it.
pub struct UniformModel {
    pub kind: UniformType,
    pub words: Seq<u32>,
}

/// A uniform value, ready for upload.
#[derive(Debug)]
pub struct Uniform {
    kind: UniformType,
    words: Vec<u32>,
}

impl View for Uniform {
    type V = UniformModel;

    closed spec fn view(&self) -> UniformModel {
        UniformModel { kind: self.kind, words: self.words@ }
    }
}

impl Uniform {
    #[verifier::type_invariant]
    spec fn well_formed(self) -> bool {
        self.words@.len() == self.kind.shape.spec_lanes() * self.kind.count
    }

    /// The uniform type of this value.
    pub fn kind(&self) -> (kind: UniformType)
        ensures
            kind == self@.kind,
    {
        self.kind
    }

    /// The shape of this value.
    pub fn shape(&self) -> (shape: UniformShape)
        ensures
            shape == self@.kind.shape,
    {
        self.kind.shape
    }

    /// How many values of the shape this uniform holds.
    pub fn count(&self) -> (count: usize)
        ensures
            count == self@.kind.count,
    {
        self.kind.count
    }

    /// The lanes, in memory order.
    pub fn words(&self) -> (words: &Vec<u32>)
        ensures
            words@ == self@.words,
            words@.len() == self@.kind.shape.spec_lanes() * self@.kind.count,
    {
        proof {
            use_type_invariant(self);
        }
        &self.words
    }

    /// The checked cast of raw lanes: `words` as a value of `kind`, where
    /// there are exactly as many lanes as `kind` asks for.
    pub fn new(kind: UniformType, words: Vec<u32>) -> (uniform: Option<Uniform>)
        ensures
            words@.len() == kind.shape.spec_lanes() * kind.count ==> uniform is Some
                && uniform->Some_0@ == (UniformModel { kind, words: words@ }),
            words@.len() != kind.shape.spec_lanes() * kind.count ==> uniform is None,
    {
        let lanes: usize = kind.shape.lanes();
        let given: usize = words.len();
        assert(lanes * kind.count == kind.shape.spec_lanes() * kind.count) by (nonlinear_arith)
            requires
                lanes == kind.shape.spec_lanes(),
        ;
        match lanes.checked_mul(kind.count) {
            Some(len) => {
                if given == len {
                    Some(Uniform { kind, words })
                } else {
                    None
                }
            },
            None => None,
        }
    }

    /// An integer as `Int1`.
    pub fn from_i32(value: i32) -> (uniform: Uniform)
        ensures
            uniform@ == (UniformModel {
                kind: UniformType { shape: UniformShape::Int1, count: 1 },
                words: seq![int_word(value)],
            }),
            HostType::Int.declares(uniform@.kind),
    {
        let mut words: Vec<u32> = Vec::new();
        words.push(int_to_word(value));
        assert(words@ =~= seq![int_word(value)]);
        Uniform { kind: UniformType { shape: UniformShape::Int1, count: 1 }, words }
    }

    /// A single-precision number, by its bit pattern, as `Float1`.
    pub fn from_f32(bits: u32) -> (uniform: Uniform)
        ensures
            uniform@ == (UniformModel {
                kind: UniformType { shape: UniformShape::Float1, count: 1 },
                words: seq![bits],
            }),
            HostType::Float.declares(uniform@.kind),
    {
        let mut words: Vec<u32> = Vec::new();
        words.push(bits);
        assert(words@ =~= seq![bits]);
        Uniform { kind: UniformType { shape: UniformShape::Float1, count: 1 }, words }
    }

    /// A two-lane vector as `Float2`.
    pub fn from_f32x2(v: f32x2) -> (uniform: Uniform)
        ensures
            uniform@ == (UniformModel {
                kind: UniformType { shape: UniformShape::Float2, count: 1 },
                words: lanes2(v),
            }),
            HostType::Vector2.declares(uniform@.kind),
    {
        let mut words: Vec<u32> = Vec::new();
        words.push(v.x);
        words.push(v.y);
        assert(words@ =~= lanes2(v));
        Uniform { kind: UniformType { shape: UniformShape::Float2, count: 1 }, words }
    }

    /// A three-lane vector as `Float3`.
    pub fn from_f32x3(v: f32x3) -> (uniform: Uniform)
        ensures
            uniform@ == (UniformModel {
                kind: UniformType { shape: UniformShape::Float3, count: 1 },
                words: lanes3(v),
            }),
            HostType::Vector3.declares(uniform@.kind),
    {
        let mut words: Vec<u32> = Vec::new();
        words.push(v.x);
        words.push(v.y);
        words.push(v.z);
        assert(words@ =~= lanes3(v));
        Uniform { kind: UniformType { shape: UniformShape::Float3, count: 1 }, words }
    }

    /// A four-lane vector as `Float4`.
    pub fn from_f32x4(v: f32x4) -> (uniform: Uniform)
        ensures
            uniform@ == (UniformModel {
                kind: UniformType { shape: UniformShape::Float4, count: 1 },
                words: lanes4(v),
            }),
            HostType::Vector4.declares(uniform@.kind),
    {
        let mut words: Vec<u32> = Vec::new();
        push_lanes4(&mut words, v);
        assert(words@ =~= lanes4(v));
        Uniform { kind: UniformType { shape: UniformShape::Float4, count: 1 }, words }
    }

    /// A 2x2 matrix as `Mat2`, its entries column after column.
    pub fn from_mat2(m: Mat2) -> (uniform: Uniform)
        ensures
            uniform@ == (UniformModel {
                kind: UniformType { shape: UniformShape::Mat2, count: 1 },
                words: lanes4(m.0),
            }),
            HostType::Matrix2.declares(uniform@.kind),
    {
        let mut words: Vec<u32> = Vec::new();
        push_lanes4(&mut words, m.0);
        assert(words@ =~= lanes4(m.0));
        Uniform { kind: UniformType { shape: UniformShape::Mat2, count: 1 }, words }
    }

    /// A quaternion as `Mat2`: its four lanes `x`, `y`, `z`, `w` in order.
    pub fn from_quat(q: Quat) -> (uniform: Uniform)
        ensures
            uniform@ == (UniformModel {
                kind: UniformType { shape: UniformShape::Mat2, count: 1 },
                words: lanes4(q.0),
            }),
            HostType::Quaternion.declares(uniform@.kind),
    {
        let mut words: Vec<u32> = Vec::new();
        push_lanes4(&mut words, q.0);
        assert(words@ =~= lanes4(q.0));
        Uniform { kind: UniformType { shape: UniformShape::Mat2, count: 1 }, words }
    }

    /// A 4x4 matrix as `Mat4`, column after column.
    pub fn from_mat4(m: Mat4) -> (uniform: Uniform)
        ensures
            uniform@ == (UniformModel {
                kind: UniformType { shape: UniformShape::Mat4, count: 1 },
                words: lanes16(m),
            }),
            HostType::Matrix4.declares(uniform@.kind),
    {
        let mut words: Vec<u32> = Vec::new();
        push_lanes4(&mut words, m.x_axis);
        push_lanes4(&mut words, m.y_axis);
        push_lanes4(&mut words, m.z_axis);
        push_lanes4(&mut words, m.w_axis);
        assert(words@ =~= lanes16(m));
        Uniform { kind: UniformType { shape: UniformShape::Mat4, count: 1 }, words }
    }

    /// An array of integers as that many `Int1`.
    pub fn from_i32_slice(values: &[i32]) -> (uniform: Uniform)
        ensures
            uniform@ == (UniformModel {
                kind: UniformType { shape: UniformShape::Int1, count: values@.len() as usize },
                words: concat(values@.len(), |i: int| seq![int_word(values@[i])]),
            }),
            HostType::Array(Box::new(HostType::Int), values@.len() as usize).declares(
                uniform@.kind,
            ),
    {
        let ghost each = |i: int| seq![int_word(values@[i])];
        let mut words: Vec<u32> = Vec::new();
        let mut i: usize = 0;
        while i < values.len()
            invariant
                0 <= i <= values@.len(),
                words@ == concat(i as nat, each),
                words@.len() == i,
                each == |i: int| seq![int_word(values@[i])],
            decreases values@.len() - i,
        {
            words.push(int_to_word(values[i]));
            i = i + 1;
            assert(words@ =~= concat((i - 1) as nat, each) + each(i - 1));
        }
        Uniform { kind: UniformType { shape: UniformShape::Int1, count: values.len() }, words }
    }

    /// An array of two-lane vectors as that many `Float2`.
    pub fn from_f32x2_slice(values: &[f32x2]) -> (uniform: Option<Uniform>)
        ensures
            2 * values@.len() <= usize::MAX ==> uniform is Some && uniform->Some_0@
                == (UniformModel {
                kind: UniformType { shape: UniformShape::Float2, count: values@.len() as usize },
                words: concat(values@.len(), |i: int| lanes2(values@[i])),
            }) && HostType::Array(Box::new(HostType::Vector2), values@.len() as usize).declares(
                uniform->Some_0@.kind,
            ),
            2 * values@.len() > usize::MAX ==> uniform is None,
    {
        if values.len() > usize::MAX / 2 {
            return None;
        }
        let ghost each = |i: int| lanes2(values@[i]);
        let mut words: Vec<u32> = Vec::new();
        let mut i: usize = 0;
        while i < values.len()
            invariant
                0 <= i <= values@.len(),
                words@ == concat(i as nat, each),
                words@.len() == 2 * i,
                each == |i: int| lanes2(values@[i]),
            decreases values@.len() - i,
        {
            words.push(values[i].x);
            words.push(values[i].y);
            i = i + 1;
            assert(words@ =~= concat((i - 1) as nat, each) + each(i - 1));
        }
        Some(
            Uniform {
                kind: UniformType { shape: UniformShape::Float2, count: values.len() },
                words,
            },
        )
    }

    /// An array of three-lane vectors as that many `Float3`.
    pub fn from_f32x3_slice(values: &[f32x3]) -> (uniform: Option<Uniform>)
        ensures
            3 * values@.len() <= usize::MAX ==> uniform is Some && uniform->Some_0@
                == (UniformModel {
                kind: UniformType { shape: UniformShape::Float3, count: values@.len() as usize },
                words: concat(values@.len(), |i: int| lanes3(values@[i])),
            }) && HostType::Array(Box::new(HostType::Vector3), values@.len() as usize).declares(
                uniform->Some_0@.kind,
            ),
            3 * values@.len() > usize::MAX ==> uniform is None,
    {
        if values.len() > usize::MAX / 3 {
            return None;
        }
        let ghost each = |i: int| lanes3(values@[i]);
        let mut words: Vec<u32> = Vec::new();
        let mut i: usize = 0;
        while i < values.len()
            invariant
                0 <= i <= values@.len(),
                words@ == concat(i as nat, each),
                words@.len() == 3 * i,
                each == |i: int| lanes3(values@[i]),
            decreases values@.len() - i,
        {
            words.push(values[i].x);
            words.push(values[i].y);
            words.push(values[i].z);
            i = i + 1;
            assert(words@ =~= concat((i - 1) as nat, each) + each(i - 1));
        }
        Some(
            Uniform {
                kind: UniformType { shape: UniformShape::Float3, count: values.len() },
                words,
            },
        )
    }

    /// An array of four-lane vectors as that many `Float4`.
    pub fn from_f32x4_slice(values: &[f32x4]) -> (uniform: Option<Uniform>)
        ensures
            4 * values@.len() <= usize::MAX ==> uniform is Some && uniform->Some_0@
                == (UniformModel {
                kind: UniformType { shape: UniformShape::Float4, count: values@.len() as usize },
                words: concat(values@.len(), |i: int| lanes4(values@[i])),
            }) && HostType::Array(Box::new(HostType::Vector4), values@.len() as usize).declares(
                uniform->Some_0@.kind,
            ),
            4 * values@.len() > usize::MAX ==> uniform is None,
    {
        if values.len() > usize::MAX / 4 {
            return None;
        }
        let ghost each = |i: int| lanes4(values@[i]);
        let mut words: Vec<u32> = Vec::new();
        let mut i: usize = 0;
        while i < values.len()
            invariant
                0 <= i <= values@.len(),
                words@ == concat(i as nat, each),
                words@.len() == 4 * i,
                each == |i: int| lanes4(values@[i]),
            decreases values@.len() - i,
        {
            push_lanes4(&mut words, values[i]);
            i = i + 1;
            assert(words@ =~= concat((i - 1) as nat, each) + each(i - 1));
        }
        Some(
            Uniform {
                kind: UniformType { shape: UniformShape::Float4, count: values.len() },
                words,
            },
        )
    }
}

/// The 32 bits of an integer, as an unsigned word.
pub fn int_to_word(value: i32) -> (word: u32)
    ensures
        word == int_word(value),
{
    if value >= 0 {
        value as u32
    } else {
        (value as i64 + 0x1_0000_0000) as u32
    }
}

/// Appends the four lanes of `v` to `words`.
fn push_lanes4(words: &mut Vec<u32>, v: f32x4)
    ensures
        final(words)@ == old(words)@ + lanes4(v),
        final(words)@.len() == old(words)@.len() + 4,
{
    words.push(v.x);
    words.push(v.y);
    words.push(v.z);
    words.push(v.w);
    assert(words@ =~= old(words)@ + lanes4(v));
}

/// A uniform value and the location in a program that it goes to.
#[derive(Debug)]
pub struct UniformSlot {
    pub location: u32,
    pub value: Uniform,
}

/// What a program is drawn with: the values of its uniforms.
pub trait Material {
    /// The uniforms that `program` requires, each with its location, in the
    /// order in which they are to be uploaded.
    fn uniforms(&self, program: &ShaderProgram) -> Vec<UniformSlot>;
}

} // verus!
