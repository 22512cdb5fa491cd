//! The layout contract between host values and uniform shapes.
//!
//! A host value may be handed to the graphics context under a uniform shape
//! only where the two occupy memory in the same way: the same size and the
//! same alignment. This module names the host types and the shapes, declares
//! which host type may be viewed as which shape, and proves that every declared
//! view keeps size and alignment.
use vstd::prelude::*;

verus! {

/// The shapes of uniform values that the graphics context accepts.
#[derive(Clone, Copy, Debug, PartialEq, Eq, Structural)]
pub enum UniformShape {
    Int1,
    Int2,
    Int3,
    Int4,
    Float1,
    Float2,
    Float3,
    Float4,
    Mat2,
    Mat4,
}

/// A uniform shape, `count` times in a row.
#[derive(Clone, Copy, Debug, PartialEq, Eq, Structural)]
pub struct UniformType {
    pub shape: UniformShape,
    pub count: usize,
}

/// The type of a host value.
#[derive(Debug)]
pub enum HostType {
    /// A 32-bit integer.
    Int,
    /// A single-precision number.
    Float,
    /// A vector of two lanes.
    Vector2,
    /// A vector of three lanes.
    Vector3,
    /// A vector of four lanes.
    Vector4,
    /// A quaternion.
    Quaternion,
    /// A 2x2 matrix.
    Matrix2,
    /// A 4x4 matrix.
    Matrix4,
    /// A fixed array of that many values of one type.
    Array(Box<HostType>, usize),
}

/// Size and alignment of a type, in bytes.
#[derive(Clone, Copy, Debug, PartialEq, Eq, Structural)]
pub struct Layout {
    pub size: usize,
    pub align: usize,
}

impl UniformShape {
    /// The number of 32-bit lanes of one value of this shape.
    pub open spec fn spec_lanes(self) -> nat {
        match self {
            UniformShape::Int1 | UniformShape::Float1 => 1,
            UniformShape::Int2 | UniformShape::Float2 => 2,
            UniformShape::Int3 | UniformShape::Float3 => 3,
            UniformShape::Int4 | UniformShape::Float4 | UniformShape::Mat2 => 4,
            UniformShape::Mat4 => 16,
        }
    }

    /// The number of 32-bit lanes of one value of this shape.
    pub fn lanes(self) -> (lanes: usize)
        ensures
            lanes == self.spec_lanes(),
    {
        match self {
            UniformShape::Int1 | UniformShape::Float1 => 1,
            UniformShape::Int2 | UniformShape::Float2 => 2,
            UniformShape::Int3 | UniformShape::Float3 => 3,
            UniformShape::Int4 | UniformShape::Float4 | UniformShape::Mat2 => 4,
            UniformShape::Mat4 => 16,
        }
    }

    /// The shape of `lanes` integers, or of `lanes` single-precision numbers.
    pub open spec fn spec_of_lanes(integer: bool, lanes: nat) -> Option<UniformShape> {
        if lanes == 1 {
            Some(
                if integer {
                    UniformShape::Int1
                } else {
                    UniformShape::Float1
                },
            )
        } else if lanes == 2 {
            Some(
                if integer {
                    UniformShape::Int2
                } else {
                    UniformShape::Float2
                },
            )
        } else if lanes == 3 {
            Some(
                if integer {
                    UniformShape::Int3
                } else {
                    UniformShape::Float3
                },
            )
        } else if lanes == 4 {
            Some(
                if integer {
                    UniformShape::Int4
                } else {
                    UniformShape::Float4
                },
            )
        } else {
            None
        }
    }

    /// The shape of `lanes` integers, or of `lanes` single-precision numbers,
    /// where there is one: for one to four lanes.
    pub fn of_lanes(integer: bool, lanes: usize) -> (shape: Option<UniformShape>)
        ensures
            shape == UniformShape::spec_of_lanes(integer, lanes as nat),
            shape matches Some(s) ==> s.spec_lanes() == lanes,
    {
        if lanes == 1 {
            Some(
                if integer {
                    UniformShape::Int1
                } else {
                    UniformShape::Float1
                },
            )
        } else if lanes == 2 {
            Some(
                if integer {
                    UniformShape::Int2
                } else {
                    UniformShape::Float2
                },
            )
        } else if lanes == 3 {
            Some(
                if integer {
                    UniformShape::Int3
                } else {
                    UniformShape::Float3
                },
            )
        } else if lanes == 4 {
            Some(
                if integer {
                    UniformShape::Int4
                } else {
                    UniformShape::Float4
                },
            )
        } else {
            None
        }
    }
}

impl UniformType {
    /// The size in bytes: four for each lane of each value.
    pub open spec fn spec_size(self) -> nat {
        4 * self.shape.spec_lanes() * (self.count as nat)
    }

    /// The alignment in bytes, that of a 32-bit lane.
    pub open spec fn spec_align(self) -> nat {
        4
    }
}

impl HostType {
    /// The size in bytes.
    pub open spec fn spec_size(self) -> nat
        decreases self,
    {
        match self {
            HostType::Int | HostType::Float => 4,
            HostType::Vector2 => 8,
            HostType::Vector3 => 12,
            HostType::Vector4 | HostType::Quaternion | HostType::Matrix2 => 16,
            HostType::Matrix4 => 64,
            HostType::Array(element, len) => element.spec_size() * (len as nat),
        }
    }

    /// The alignment in bytes: every host type is made of 32-bit lanes.
    pub open spec fn spec_align(self) -> nat {
        4
    }

    /// Whether the size of the type, and of every type within it, fits the
    /// machine's address space.
    pub open spec fn fits(self) -> bool
        decreases self,
    {
        match self {
            HostType::Array(element, len) => element.fits() && element.spec_size() * len
                <= usize::MAX,
            _ => true,
        }
    }

    /// The shape under which one value of this type is one uniform value: a
    /// scalar, a vector, or an array of two to four scalars.
    pub open spec fn unit_shape(self) -> Option<UniformShape> {
        match self {
            HostType::Int => Some(UniformShape::Int1),
            HostType::Float => Some(UniformShape::Float1),
            HostType::Vector2 => Some(UniformShape::Float2),
            HostType::Vector3 => Some(UniformShape::Float3),
            HostType::Vector4 => Some(UniformShape::Float4),
            HostType::Array(element, len) => match *element {
                HostType::Int if len >= 2 => UniformShape::spec_of_lanes(true, len as nat),
                HostType::Float if len >= 2 => UniformShape::spec_of_lanes(false, len as nat),
                _ => None,
            },
            _ => None,
        }
    }

    /// The matrix shape under which a value of this type may be viewed: the
    /// matrix types themselves, a quaternion, and arrays of 4 or 2x2 numbers
    /// as a 2x2 matrix, of 16 or 4x4 numbers as a 4x4 matrix.
    pub open spec fn matrix_shape(self) -> Option<UniformShape> {
        match self {
            HostType::Quaternion | HostType::Matrix2 => Some(UniformShape::Mat2),
            HostType::Matrix4 => Some(UniformShape::Mat4),
            HostType::Array(element, len) => match *element {
                HostType::Float if len == 4 => Some(UniformShape::Mat2),
                HostType::Float if len == 16 => Some(UniformShape::Mat4),
                HostType::Array(inner, width) => match *inner {
                    HostType::Float if width == 2 && len == 2 => Some(UniformShape::Mat2),
                    HostType::Float if width == 4 && len == 4 => Some(UniformShape::Mat4),
                    _ => None,
                },
                _ => None,
            },
            _ => None,
        }
    }

    /// The shape of each element, where this type is an array of values that
    /// are one uniform value each.
    pub open spec fn run_shape(self) -> Option<UniformShape> {
        match self {
            HostType::Array(element, _) => element.unit_shape(),
            _ => None,
        }
    }

    /// The number of elements of an array type, and one for any other.
    pub open spec fn spec_len(self) -> usize {
        match self {
            HostType::Array(_, len) => len,
            _ => 1,
        }
    }

    /// The declared views of this type: as a run of one uniform value per
    /// element, as a single uniform value, and as a matrix, in this order and
    /// each where it applies.
    pub open spec fn declared_views(self) -> Seq<UniformType> {
        let run = match self.run_shape() {
            Some(shape) => seq![UniformType { shape, count: self.spec_len() }],
            None => Seq::empty(),
        };
        let unit = match self.unit_shape() {
            Some(shape) => seq![UniformType { shape, count: 1 }],
            None => Seq::empty(),
        };
        let matrix = match self.matrix_shape() {
            Some(shape) => seq![UniformType { shape, count: 1 }],
            None => Seq::empty(),
        };
        run + unit + matrix
    }

    /// Whether viewing this type as `view` is declared.
    pub open spec fn declares(self, view: UniformType) -> bool {
        ||| self.run_shape() == Some(view.shape) && view.count == self.spec_len()
        ||| self.unit_shape() == Some(view.shape) && view.count == 1
        ||| self.matrix_shape() == Some(view.shape) && view.count == 1
    }
}

/// The declared views of a type are those that [`HostType::declares`] admits.
pub proof fn lemma_declared_views(host: HostType, view: UniformType)
    ensures
        host.declared_views().contains(view) <==> host.declares(view),
{
    let run: Seq<UniformType> = match host.run_shape() {
        Some(shape) => seq![UniformType { shape, count: host.spec_len() }],
        None => Seq::empty(),
    };
    let unit: Seq<UniformType> = match host.unit_shape() {
        Some(shape) => seq![UniformType { shape, count: 1 }],
        None => Seq::empty(),
    };
    let matrix: Seq<UniformType> = match host.matrix_shape() {
        Some(shape) => seq![UniformType { shape, count: 1 }],
        None => Seq::empty(),
    };
    let views = host.declared_views();
    assert(views == run + unit + matrix);
    if host.declares(view) {
        if host.run_shape() == Some(view.shape) && view.count == host.spec_len() {
            assert(views[0] == view);
        } else if host.unit_shape() == Some(view.shape) && view.count == 1 {
            assert(views[run.len() as int] == view);
        } else {
            assert(views[(run.len() + unit.len()) as int] == view);
        }
    }
    if views.contains(view) {
        let i = choose|i: int| 0 <= i < views.len() && views[i] == view;
        if i < run.len() {
            assert(views[i] == run[i]);
        } else if i < run.len() + unit.len() {
            assert(views[i] == unit[i - run.len()]);
        } else {
            assert(views[i] == matrix[i - run.len() - unit.len()]);
        }
    }
}

/// One value under its unit shape keeps its size: four bytes a lane.
pub proof fn lemma_unit_shape_size(host: HostType)
    requires
        host.unit_shape() is Some,
    ensures
        host.spec_size() == 4 * host.unit_shape()->Some_0.spec_lanes(),
{
    match host {
        HostType::Array(element, len) => {
            assert(element.spec_size() == 4);
            assert(host.spec_size() == 4 * len);
        },
        _ => {},
    }
}

/// A value under a matrix shape keeps its size.
pub proof fn lemma_matrix_shape_size(host: HostType)
    requires
        host.matrix_shape() is Some,
    ensures
        host.spec_size() == 4 * host.matrix_shape()->Some_0.spec_lanes(),
{
    match host {
        HostType::Array(element, len) => {
            match *element {
                HostType::Array(inner, width) => {
                    assert(inner.spec_size() == 4);
                    assert(element.spec_size() == 4 * width);
                    assert(host.spec_size() == (4 * width) * len);
                },
                _ => {
                    assert(element.spec_size() == 4);
                    assert(host.spec_size() == 4 * len);
                },
            }
        },
        _ => {},
    }
}

/// Layout equality of every declared view: a host type and a uniform type that
/// it may be viewed as have the same size and the same alignment.
pub proof fn lemma_declared_views_keep_layout(host: HostType, view: UniformType)
    requires
        host.declares(view),
    ensures
        view.spec_size() == host.spec_size(),
        view.spec_align() == host.spec_align(),
{
    if host.run_shape() == Some(view.shape) && view.count == host.spec_len() {
        match host {
            HostType::Array(element, len) => {
                lemma_unit_shape_size(*element);
                let lanes = view.shape.spec_lanes();
                assert(element.spec_size() * len == 4 * lanes * len) by (nonlinear_arith)
                    requires
                        element.spec_size() == 4 * lanes,
                ;
            },
            _ => {},
        }
    } else if host.unit_shape() == Some(view.shape) && view.count == 1 {
        lemma_unit_shape_size(host);
    } else {
        lemma_matrix_shape_size(host);
    }
}

impl UniformType {
    /// Size and alignment of this uniform type, unless the size is beyond the
    /// machine's address space.
    pub fn layout(&self) -> (layout: Option<Layout>)
        ensures
            self.spec_size() <= usize::MAX ==> layout == Some(
                Layout { size: self.spec_size() as usize, align: 4 },
            ),
            self.spec_size() > usize::MAX ==> layout is None,
    {
        let lanes: usize = self.shape.lanes();
        match (4 * lanes).checked_mul(self.count) {
            Some(size) => Some(Layout { size, align: 4 }),
            None => None,
        }
    }
}

impl HostType {
    /// The size in bytes, unless the type does not fit the machine's address
    /// space.
    pub fn size(&self) -> (size: Option<usize>)
        ensures
            self.fits() ==> size == Some(self.spec_size() as usize) && self.spec_size()
                <= usize::MAX,
            !self.fits() ==> size is None,
        decreases self,
    {
        match self {
            HostType::Int | HostType::Float => Some(4),
            HostType::Vector2 => Some(8),
            HostType::Vector3 => Some(12),
            HostType::Vector4 | HostType::Quaternion | HostType::Matrix2 => Some(16),
            HostType::Matrix4 => Some(64),
            HostType::Array(element, len) => match element.size() {
                Some(size) => size.checked_mul(*len),
                None => None,
            },
        }
    }

    /// Size and alignment of this type, unless it does not fit the machine's
    /// address space.
    pub fn layout(&self) -> (layout: Option<Layout>)
        ensures
            self.fits() ==> layout == Some(Layout { size: self.spec_size() as usize, align: 4 }),
            !self.fits() ==> layout is None,
    {
        match self.size() {
            Some(size) => Some(Layout { size, align: 4 }),
            None => None,
        }
    }

    /// The number of elements of an array type, and one for any other.
    pub fn len(&self) -> (len: usize)
        ensures
            len == self.spec_len(),
    {
        match self {
            HostType::Array(_, len) => *len,
            _ => 1,
        }
    }

    /// The shape under which one value of this type is one uniform value,
    /// see [`HostType::unit_shape`].
    pub fn unit(&self) -> (shape: Option<UniformShape>)
        ensures
            shape == self.unit_shape(),
    {
        match self {
            HostType::Int => Some(UniformShape::Int1),
            HostType::Float => Some(UniformShape::Float1),
            HostType::Vector2 => Some(UniformShape::Float2),
            HostType::Vector3 => Some(UniformShape::Float3),
            HostType::Vector4 => Some(UniformShape::Float4),
            HostType::Array(element, len) => {
                if *len < 2 {
                    return None;
                }
                match &**element {
                    HostType::Int => UniformShape::of_lanes(true, *len),
                    HostType::Float => UniformShape::of_lanes(false, *len),
                    _ => None,
                }
            },
            _ => None,
        }
    }

    /// The shape of each element of an array of uniform values, see
    /// [`HostType::run_shape`].
    pub fn run(&self) -> (shape: Option<UniformShape>)
        ensures
            shape == self.run_shape(),
    {
        match self {
            HostType::Array(element, _) => element.unit(),
            _ => None,
        }
    }

    /// The matrix shape under which a value of this type may be viewed, see
    /// [`HostType::matrix_shape`].
    pub fn matrix(&self) -> (shape: Option<UniformShape>)
        ensures
            shape == self.matrix_shape(),
    {
        match self {
            HostType::Quaternion | HostType::Matrix2 => Some(UniformShape::Mat2),
            HostType::Matrix4 => Some(UniformShape::Mat4),
            HostType::Array(element, len) => match &**element {
                HostType::Float => {
                    if *len == 4 {
                        Some(UniformShape::Mat2)
                    } else if *len == 16 {
                        Some(UniformShape::Mat4)
                    } else {
                        None
                    }
                },
                HostType::Array(inner, width) => match &**inner {
                    HostType::Float => {
                        if *width == 2 && *len == 2 {
                            Some(UniformShape::Mat2)
                        } else if *width == 4 && *len == 4 {
                            Some(UniformShape::Mat4)
                        } else {
                            None
                        }
                    },
                    _ => None,
                },
                _ => None,
            },
            _ => None,
        }
    }

    /// All declared views of this type, see [`HostType::declared_views`].
    /// Each of them has the size and the alignment of this type.
    pub fn views(&self) -> (views: Vec<UniformType>)
        ensures
            views@ == self.declared_views(),
            forall|i: int|
                0 <= i < views@.len() ==> self.declares(#[trigger] views@[i])
                    && views@[i].spec_size() == self.spec_size() && views@[i].spec_align()
                    == self.spec_align(),
    {
        let mut views: Vec<UniformType> = Vec::new();
        if let Some(shape) = self.run() {
            views.push(UniformType { shape, count: self.len() });
        }
        if let Some(shape) = self.unit() {
            views.push(UniformType { shape, count: 1 });
        }
        if let Some(shape) = self.matrix() {
            views.push(UniformType { shape, count: 1 });
        }
        assert(views@ =~= self.declared_views());
        assert forall|i: int| 0 <= i < views@.len() implies self.declares(#[trigger] views@[i])
            && views@[i].spec_size() == self.spec_size() && views@[i].spec_align()
            == self.spec_align() by {
            lemma_declared_views(*self, views@[i]);
            lemma_declared_views_keep_layout(*self, views@[i]);
        }
        views
    }

    /// The checked cast: the uniform type under which this host type is viewed
    /// as `shape`, where that view is declared. The view has the size and the
    /// alignment of the host type.
    pub fn view_as(&self, shape: UniformShape) -> (view: Option<UniformType>)
        ensures
            match view {
                Some(view) => {
                    &&& view.shape == shape
                    &&& self.declares(view)
                    &&& view.spec_size() == self.spec_size()
                    &&& view.spec_align() == self.spec_align()
                },
                None => forall|count: usize| !self.declares(UniformType { shape, count }),
            },
    {
        let view: Option<UniformType> = if self.run() == Some(shape) {
            Some(UniformType { shape, count: self.len() })
        } else if self.unit() == Some(shape) || self.matrix() == Some(shape) {
            Some(UniformType { shape, count: 1 })
        } else {
            None
        };
        proof {
            if let Some(view) = view {
                lemma_declared_views_keep_layout(*self, view);
            }
        }
        view
    }
}

} // verus!
