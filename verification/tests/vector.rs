use shaderkit::single::ONE;
use shaderkit::vector::{f32x2, f32x3, f32x4, Mat4, Quat, Transform};

fn v4(x: f32, y: f32, z: f32, w: f32) -> f32x4 {
    f32x4::new([x.to_bits(), y.to_bits(), z.to_bits(), w.to_bits()])
}

fn lanes(v: f32x4) -> [f32; 4] {
    [f32::from_bits(v.x()), f32::from_bits(v.y()), f32::from_bits(v.z()), f32::from_bits(v.w())]
}

fn close(v: f32x4, expected: [f32; 4]) -> bool {
    let got = lanes(v);
    (0..4).all(|i| (got[i] - expected[i]).abs() <= 1e-6)
}

#[test]
fn identity_quaternion_gives_the_unit_axes() {
    let (x_axis, y_axis, z_axis) = Mat4::quat_to_axes(Quat(v4(0.0, 0.0, 0.0, 1.0)));
    assert!(close(x_axis, [1.0, 0.0, 0.0, 0.0]));
    assert!(close(y_axis, [0.0, 1.0, 0.0, 0.0]));
    assert!(close(z_axis, [0.0, 0.0, 1.0, 0.0]));
    assert_eq!(x_axis, v4(1.0, 0.0, 0.0, 0.0));
    assert_eq!(y_axis, v4(0.0, 1.0, 0.0, 0.0));
    assert_eq!(z_axis, v4(0.0, 0.0, 1.0, 0.0));
}

#[test]
fn half_turn_about_y_flips_x_and_z() {
    let (x_axis, y_axis, z_axis) = Mat4::quat_to_axes(Quat(v4(0.0, 1.0, 0.0, 0.0)));
    assert!(close(x_axis, [-1.0, 0.0, 0.0, 0.0]));
    assert!(close(y_axis, [0.0, 1.0, 0.0, 0.0]));
    assert!(close(z_axis, [0.0, 0.0, -1.0, 0.0]));
}

fn native_axes(q: [f32; 4]) -> [[f32; 4]; 3] {
    let [x, y, z, w] = q;
    let (x2, y2, z2) = (x + x, y + y, z + z);
    [
        [1.0 - (y * y2 + z * z2), x * y2 + w * z2, x * z2 - w * y2, 0.0],
        [x * y2 - w * z2, 1.0 - (x * x2 + z * z2), y * z2 + w * x2, 0.0],
        [x * z2 + w * y2, y * z2 - w * x2, 1.0 - (x * x2 + y * y2), 0.0],
    ]
}

#[test]
fn axes_match_hardware_arithmetic() {
    let quaternions: [[f32; 4]; 5] = [
        [0.0, 0.0, 0.0, 1.0],
        [0.5, 0.5, 0.5, 0.5],
        [0.70710677, 0.0, 0.70710677, 0.0],
        [0.18257418, 0.36514837, 0.5477226, 0.73029673],
        [-0.1, 0.3, -0.7, 0.64031243],
    ];
    for q in quaternions.iter() {
        let (x_axis, y_axis, z_axis) = Mat4::quat_to_axes(Quat(v4(q[0], q[1], q[2], q[3])));
        let expected = native_axes(*q);
        assert_eq!(x_axis, v4(expected[0][0], expected[0][1], expected[0][2], expected[0][3]));
        assert_eq!(y_axis, v4(expected[1][0], expected[1][1], expected[1][2], expected[1][3]));
        assert_eq!(z_axis, v4(expected[2][0], expected[2][1], expected[2][2], expected[2][3]));
    }
}

#[test]
fn matrix_has_the_axes_and_the_translation() {
    let rotation = Quat(v4(0.0, 1.0, 0.0, 0.0));
    let translation = f32x3 { x: 2.0f32.to_bits(), y: 3.0f32.to_bits(), z: 4.0f32.to_bits() };
    let m = Mat4::from_rotation_translation(rotation, translation);
    let (x_axis, y_axis, z_axis) = Mat4::quat_to_axes(rotation);
    assert_eq!(m, Mat4::from_cols(x_axis, y_axis, z_axis, v4(2.0, 3.0, 4.0, 1.0)));
    assert_eq!(m.w_axis.w(), ONE);
    assert_eq!(Transform { translation, rotation }.matrix(), m);
}

#[test]
fn lane_arithmetic_is_elementwise() {
    let a = v4(1.0, -2.5, 3.25, 0.0);
    let b = v4(0.5, 4.0, -1.0, 2.0);
    assert_eq!(a.add(b), v4(1.5, 1.5, 2.25, 2.0));
    assert_eq!(a.sub(b), v4(0.5, -6.5, 4.25, -2.0));
    assert_eq!(a.mul(b), v4(0.5, -10.0, -3.25, 0.0));
    assert_eq!(a.div(b), v4(2.0, -0.625, -3.25, 0.0));
    assert_eq!(a.abs(), v4(1.0, 2.5, 3.25, 0.0));
    assert_eq!(a.floor(), v4(1.0, -3.0, 3.0, 0.0));
    assert_eq!(a.ceil(), v4(1.0, -2.0, 4.0, 0.0));
    let mut c = a;
    c.add_assign(b);
    assert_eq!(c, a.add(b));
    c.sub_assign(b);
    assert_eq!(c, a.add(b).sub(b));
    c.mul_assign(b);
    assert_eq!(c, a.add(b).sub(b).mul(b));
    c.div_assign(b);
    assert_eq!(c, a.add(b).sub(b).mul(b).div(b));
    assert_eq!(f32x4::splat(ONE), v4(1.0, 1.0, 1.0, 1.0));
    assert_eq!(f32x4::f32x3_f32(f32x3 { x: 1, y: 2, z: 3 }, 4), f32x4::new([1, 2, 3, 4]));
}

#[test]
fn narrower_vectors_have_the_same_arithmetic() {
    let b = |x: f32| x.to_bits();
    let p = f32x2::new([b(1.5), b(-2.0)]);
    let q = f32x2::new([b(0.5), b(4.0)]);
    assert_eq!(p.add(q), f32x2::new([b(2.0), b(2.0)]));
    assert_eq!(p.sub(q), f32x2::new([b(1.0), b(-6.0)]));
    assert_eq!(p.mul(q), f32x2::new([b(0.75), b(-8.0)]));
    assert_eq!(p.div(q), f32x2::new([b(3.0), b(-0.5)]));
    assert_eq!(p.floor(), f32x2::new([b(1.0), b(-2.0)]));
    assert_eq!(p.ceil(), f32x2::new([b(2.0), b(-2.0)]));
    assert_eq!(p.abs(), f32x2::new([b(1.5), b(2.0)]));
    assert_eq!(f32x2::splat(7), f32x2 { x: 7, y: 7 });

    let u = f32x3::new([b(1.5), b(-2.0), b(8.0)]);
    let v = f32x3::new([b(0.5), b(4.0), b(-2.0)]);
    assert_eq!(u.add(v), f32x3::new([b(2.0), b(2.0), b(6.0)]));
    assert_eq!(u.sub(v), f32x3::new([b(1.0), b(-6.0), b(10.0)]));
    assert_eq!(u.mul(v), f32x3::new([b(0.75), b(-8.0), b(-16.0)]));
    assert_eq!(u.div(v), f32x3::new([b(3.0), b(-0.5), b(-4.0)]));
    assert_eq!((u.x(), u.y(), u.z()), (b(1.5), b(-2.0), b(8.0)));
    let mut w = u;
    w.add_assign(v);
    w.sub_assign(v);
    w.mul_assign(v);
    w.div_assign(v);
    assert_eq!(w, u);
    let mut r = p;
    r.mul_assign(q);
    r.div_assign(q);
    r.add_assign(q);
    r.sub_assign(q);
    assert_eq!(r, p);
}

#[test]
fn a_lane_can_be_written_through_its_accessor() {
    let mut v = f32x4::new([1, 2, 3, 4]);
    *v.x_mut() = 10;
    *v.w_mut() = 40;
    assert_eq!(v, f32x4::new([10, 2, 3, 40]));
    *v.y_mut() += 1;
    *v.z_mut() = v.x();
    assert_eq!(v, f32x4::new([10, 3, 10, 40]));
    let mut q = Quat(v);
    *q.w_mut() = 0;
    *q.x_mut() = 7;
    *q.y_mut() = 8;
    *q.z_mut() = 9;
    assert_eq!(q.lanes(), [7, 8, 9, 0]);
    assert_eq!((q.x(), q.y(), q.z(), q.w()), (7, 8, 9, 0));
}
