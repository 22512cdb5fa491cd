use shaderkit::layout::{HostType, Layout, UniformShape, UniformType};
use shaderkit::uniform::{int_to_word, Uniform};
use shaderkit::vector::{f32x2, f32x3, f32x4, Mat2, Mat4, Quat};
use std::mem::{align_of, size_of};

fn array(element: HostType, len: usize) -> HostType {
    HostType::Array(Box::new(element), len)
}

/// Host types of every kind, with the layout that the compiler gives the
/// type each one stands for.
fn host_types() -> Vec<(HostType, usize, usize)> {
    vec![
        (HostType::Int, size_of::<i32>(), align_of::<i32>()),
        (HostType::Float, size_of::<f32>(), align_of::<f32>()),
        (HostType::Vector2, size_of::<f32x2>(), align_of::<f32x2>()),
        (HostType::Vector3, size_of::<f32x3>(), align_of::<f32x3>()),
        (HostType::Vector4, size_of::<f32x4>(), align_of::<f32x4>()),
        (HostType::Quaternion, size_of::<Quat>(), align_of::<Quat>()),
        (HostType::Matrix2, size_of::<Mat2>(), align_of::<Mat2>()),
        (HostType::Matrix4, size_of::<Mat4>(), align_of::<Mat4>()),
        (array(HostType::Int, 7), size_of::<[i32; 7]>(), align_of::<[i32; 7]>()),
        (array(HostType::Int, 3), size_of::<[i32; 3]>(), align_of::<[i32; 3]>()),
        (array(HostType::Float, 1), size_of::<[f32; 1]>(), align_of::<[f32; 1]>()),
        (array(HostType::Float, 2), size_of::<[f32; 2]>(), align_of::<[f32; 2]>()),
        (array(HostType::Float, 3), size_of::<[f32; 3]>(), align_of::<[f32; 3]>()),
        (array(HostType::Float, 4), size_of::<[f32; 4]>(), align_of::<[f32; 4]>()),
        (array(HostType::Float, 16), size_of::<[f32; 16]>(), align_of::<[f32; 16]>()),
        (array(HostType::Float, 5), size_of::<[f32; 5]>(), align_of::<[f32; 5]>()),
        (array(array(HostType::Float, 2), 2), size_of::<[[f32; 2]; 2]>(), align_of::<[[f32; 2]; 2]>()),
        (array(array(HostType::Float, 2), 6), size_of::<[[f32; 2]; 6]>(), align_of::<[[f32; 2]; 6]>()),
        (array(array(HostType::Float, 3), 6), size_of::<[[f32; 3]; 6]>(), align_of::<[[f32; 3]; 6]>()),
        (array(array(HostType::Float, 4), 4), size_of::<[[f32; 4]; 4]>(), align_of::<[[f32; 4]; 4]>()),
        (array(array(HostType::Int, 4), 2), size_of::<[[i32; 4]; 2]>(), align_of::<[[i32; 4]; 2]>()),
        (array(HostType::Vector2, 5), size_of::<[f32x2; 5]>(), align_of::<[f32x2; 5]>()),
        (array(HostType::Vector3, 5), size_of::<[f32x3; 5]>(), align_of::<[f32x3; 5]>()),
        (array(HostType::Vector4, 5), size_of::<[f32x4; 5]>(), align_of::<[f32x4; 5]>()),
        (array(HostType::Matrix4, 2), size_of::<[Mat4; 2]>(), align_of::<[Mat4; 2]>()),
        (array(HostType::Float, 0), 0, 4),
    ]
}

#[test]
fn every_declared_view_has_the_size_and_alignment_of_its_host_type() {
    let mut pairings = 0;
    for (host, size, align) in host_types() {
        let layout = host.layout().unwrap();
        assert_eq!(layout, Layout { size, align }, "{:?}", host);
        for view in host.views() {
            assert_eq!(view.layout(), Some(layout), "{:?} as {:?}", host, view);
            assert_eq!(host.view_as(view.shape), Some(view));
            pairings += 1;
        }
    }
    assert_eq!(pairings, 33);
}

#[test]
fn the_views_of_each_host_type() {
    let one = |shape| UniformType { shape, count: 1 };
    assert_eq!(HostType::Int.views(), vec![one(UniformShape::Int1)]);
    assert_eq!(HostType::Float.views(), vec![one(UniformShape::Float1)]);
    assert_eq!(HostType::Vector2.views(), vec![one(UniformShape::Float2)]);
    assert_eq!(HostType::Vector3.views(), vec![one(UniformShape::Float3)]);
    assert_eq!(HostType::Vector4.views(), vec![one(UniformShape::Float4)]);
    assert_eq!(HostType::Quaternion.views(), vec![one(UniformShape::Mat2)]);
    assert_eq!(HostType::Matrix2.views(), vec![one(UniformShape::Mat2)]);
    assert_eq!(HostType::Matrix4.views(), vec![one(UniformShape::Mat4)]);
    assert_eq!(
        array(HostType::Float, 4).views(),
        vec![
            UniformType { shape: UniformShape::Float1, count: 4 },
            one(UniformShape::Float4),
            one(UniformShape::Mat2),
        ]
    );
    assert_eq!(
        array(HostType::Float, 16).views(),
        vec![UniformType { shape: UniformShape::Float1, count: 16 }, one(UniformShape::Mat4)]
    );
    assert_eq!(
        array(array(HostType::Float, 2), 2).views(),
        vec![UniformType { shape: UniformShape::Float2, count: 2 }, one(UniformShape::Mat2)]
    );
    assert_eq!(
        array(HostType::Int, 3).views(),
        vec![UniformType { shape: UniformShape::Int1, count: 3 }, one(UniformShape::Int3)]
    );
    assert_eq!(
        array(HostType::Vector3, 9).views(),
        vec![UniformType { shape: UniformShape::Float3, count: 9 }]
    );
    assert_eq!(array(HostType::Matrix4, 2).views(), vec![]);
    assert_eq!(array(array(HostType::Float, 5), 2).views(), vec![]);
}

#[test]
fn a_cast_that_is_not_declared_is_refused() {
    assert_eq!(HostType::Vector3.view_as(UniformShape::Float4), None);
    assert_eq!(HostType::Matrix4.view_as(UniformShape::Mat2), None);
    assert_eq!(HostType::Int.view_as(UniformShape::Float1), None);
    assert_eq!(array(HostType::Float, 5).view_as(UniformShape::Mat2), None);
    assert_eq!(
        array(HostType::Float, 5).view_as(UniformShape::Float1),
        Some(UniformType { shape: UniformShape::Float1, count: 5 })
    );
}

#[test]
fn a_type_beyond_the_address_space_has_no_layout() {
    let huge = array(array(HostType::Matrix4, usize::MAX / 2), 3);
    assert_eq!(huge.size(), None);
    assert_eq!(huge.layout(), None);
    assert_eq!(array(array(HostType::Matrix4, usize::MAX / 2), 0).size(), None);
    assert_eq!(UniformType { shape: UniformShape::Mat4, count: usize::MAX / 2 }.layout(), None);
    assert_eq!(
        UniformType { shape: UniformShape::Float3, count: 5 }.layout(),
        Some(Layout { size: 60, align: 4 })
    );
}

#[test]
fn shapes_have_one_to_sixteen_lanes() {
    assert_eq!(UniformShape::Int1.lanes(), 1);
    assert_eq!(UniformShape::Int4.lanes(), 4);
    assert_eq!(UniformShape::Float3.lanes(), 3);
    assert_eq!(UniformShape::Mat2.lanes(), 4);
    assert_eq!(UniformShape::Mat4.lanes(), 16);
    assert_eq!(UniformShape::of_lanes(true, 2), Some(UniformShape::Int2));
    assert_eq!(UniformShape::of_lanes(false, 4), Some(UniformShape::Float4));
    assert_eq!(UniformShape::of_lanes(false, 5), None);
    assert_eq!(UniformShape::of_lanes(true, 0), None);
}

#[test]
fn host_values_keep_their_lanes_in_order() {
    let v = f32x4::new([10, 11, 12, 13]);
    let uniform = Uniform::from_f32x4(v);
    assert_eq!(uniform.kind(), UniformType { shape: UniformShape::Float4, count: 1 });
    assert_eq!(uniform.words(), &vec![10, 11, 12, 13]);
    assert_eq!(Uniform::from_f32x2(f32x2 { x: 1, y: 2 }).words(), &vec![1, 2]);
    assert_eq!(Uniform::from_f32x3(f32x3 { x: 1, y: 2, z: 3 }).words(), &vec![1, 2, 3]);
    assert_eq!(Uniform::from_f32(1.5f32.to_bits()).words(), &vec![0x3FC0_0000]);
    assert_eq!(Uniform::from_mat2(Mat2(v)).shape(), UniformShape::Mat2);
    assert_eq!(Uniform::from_quat(Quat(v)).shape(), UniformShape::Mat2);
    assert_eq!(Uniform::from_quat(Quat(v)).words(), &vec![10, 11, 12, 13]);
    let m = Mat4::from_cols(
        f32x4::new([0, 1, 2, 3]),
        f32x4::new([4, 5, 6, 7]),
        f32x4::new([8, 9, 10, 11]),
        f32x4::new([12, 13, 14, 15]),
    );
    let uniform = Uniform::from_mat4(m);
    assert_eq!(uniform.shape(), UniformShape::Mat4);
    assert_eq!(uniform.count(), 1);
    assert_eq!(uniform.words(), &(0..16).collect::<Vec<u32>>());
}

#[test]
fn arrays_of_host_values_are_laid_end_to_end() {
    let uniform = Uniform::from_i32_slice(&[1, -1, i32::MIN, i32::MAX]);
    assert_eq!(uniform.kind(), UniformType { shape: UniformShape::Int1, count: 4 });
    assert_eq!(uniform.words(), &vec![1, 0xFFFF_FFFF, 0x8000_0000, 0x7FFF_FFFF]);
    assert_eq!(Uniform::from_i32(-2).words(), &vec![0xFFFF_FFFE]);
    assert_eq!(int_to_word(-1), u32::MAX);

    let pairs = [f32x2 { x: 1, y: 2 }, f32x2 { x: 3, y: 4 }, f32x2 { x: 5, y: 6 }];
    let uniform = Uniform::from_f32x2_slice(&pairs).unwrap();
    assert_eq!(uniform.kind(), UniformType { shape: UniformShape::Float2, count: 3 });
    assert_eq!(uniform.words(), &vec![1, 2, 3, 4, 5, 6]);

    let triples = [f32x3 { x: 1, y: 2, z: 3 }, f32x3 { x: 4, y: 5, z: 6 }];
    let uniform = Uniform::from_f32x3_slice(&triples).unwrap();
    assert_eq!(uniform.kind(), UniformType { shape: UniformShape::Float3, count: 2 });
    assert_eq!(uniform.words(), &vec![1, 2, 3, 4, 5, 6]);

    let quads = [f32x4::new([1, 2, 3, 4]), f32x4::new([5, 6, 7, 8])];
    let uniform = Uniform::from_f32x4_slice(&quads).unwrap();
    assert_eq!(uniform.kind(), UniformType { shape: UniformShape::Float4, count: 2 });
    assert_eq!(uniform.words(), &vec![1, 2, 3, 4, 5, 6, 7, 8]);

    let empty = Uniform::from_f32x4_slice(&[]).unwrap();
    assert_eq!(empty.count(), 0);
    assert!(empty.words().is_empty());
}

#[test]
fn raw_lanes_are_taken_only_at_the_right_length() {
    let kind = UniformType { shape: UniformShape::Float3, count: 2 };
    let uniform = Uniform::new(kind, vec![1, 2, 3, 4, 5, 6]).unwrap();
    assert_eq!(uniform.kind(), kind);
    assert_eq!(uniform.words(), &vec![1, 2, 3, 4, 5, 6]);
    assert!(Uniform::new(kind, vec![1, 2, 3, 4, 5]).is_none());
    assert!(Uniform::new(kind, vec![]).is_none());
    let huge = UniformType { shape: UniformShape::Mat4, count: usize::MAX };
    assert!(Uniform::new(huge, vec![0; 16]).is_none());
    assert!(Uniform::new(UniformType { shape: UniformShape::Mat4, count: 0 }, vec![]).is_some());
}
