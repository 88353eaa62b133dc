//! Vector, matrix, transform and camera behavior on concrete values.

use scene_core::angle::{Angle, EulerAngles};
use scene_core::buffers::UniformBuffer;
use scene_core::camera::Camera;
use scene_core::fixed::SCALE;
use scene_core::matrix::Matrix4;
use scene_core::transform::Transform;
use scene_core::vector::Vector3;

const S: i64 = SCALE;

fn vec3(x: i64, y: i64, z: i64) -> Vector3<i64> {
    Vector3::new(x, y, z)
}

#[test]
fn vector_arithmetic_componentwise() {
    let a = vec3(S, 2 * S, -3 * S);
    let b = vec3(4 * S, -S, S / 2);
    let sum = a.add(b);
    assert_eq!((sum.x, sum.y, sum.z), (5 * S, S, -3 * S + S / 2));
    let diff = a.sub(b);
    assert_eq!((diff.x, diff.y, diff.z), (-3 * S, 3 * S, -3 * S - S / 2));
    let scaled = a.mul(2 * S);
    assert_eq!((scaled.x, scaled.y, scaled.z), (2 * S, 4 * S, -6 * S));
    let halved = a.div(2 * S);
    assert_eq!((halved.x, halved.y, halved.z), (S / 2, S, -3 * S / 2));
}

#[test]
fn dot_product_exact_value() {
    // (1, 2, 3) . (4, 5, 6) = 32
    let a = vec3(S, 2 * S, 3 * S);
    let b = vec3(4 * S, 5 * S, 6 * S);
    assert_eq!(a.dot(&b), 32 * S);
}

#[test]
fn length_of_three_four_zero_is_five() {
    let v = vec3(3 * S, 4 * S, 0);
    assert_eq!(v.length(), 5 * S);
    assert_eq!(v.length_squared(), 25 * S);
}

#[test]
fn normalize_makes_length_one_within_epsilon() {
    let cases = [
        vec3(3 * S, 4 * S, 0),
        vec3(S, S, S),
        vec3(-7 * S, 2 * S, 5 * S),
        vec3(123456, -654321, 777777),
    ];
    for c in cases {
        let mut v = c;
        v.normalize();
        let len = v.length();
        assert!(
            (len - S).abs() <= 4,
            "normalized length {} strays from one unit",
            len
        );
    }
}

#[test]
fn normalize_of_zero_vector_is_a_no_op() {
    let mut v = vec3(0, 0, 0);
    v.normalize();
    assert_eq!((v.x, v.y, v.z), (0, 0, 0));
    // A vector whose squared length rounds to zero is also left alone.
    let mut tiny = vec3(100, -50, 3);
    tiny.normalize();
    assert_eq!((tiny.x, tiny.y, tiny.z), (100, -50, 3));
}

#[test]
fn cross_is_antisymmetric() {
    let a = vec3(S, 2 * S, 3 * S);
    let b = vec3(-4 * S, 5 * S, S / 4);
    let ab = a.cross(&b);
    let ba = b.cross(&a);
    assert_eq!((ab.x, ab.y, ab.z), (-ba.x, -ba.y, -ba.z));
}

#[test]
fn cross_is_orthogonal_within_epsilon() {
    let a = vec3(S, 2 * S, 3 * S);
    let b = vec3(-4 * S, 5 * S, S / 4);
    let ab = a.cross(&b);
    assert!(a.dot(&ab).abs() <= 8);
    assert!(b.dot(&ab).abs() <= 8);
}

#[test]
fn cross_follows_the_right_hand_rule() {
    // x cross y = z
    let x = vec3(S, 0, 0);
    let y = vec3(0, S, 0);
    let z = x.cross(&y);
    assert_eq!((z.x, z.y, z.z), (0, 0, S));
}

#[test]
fn identity_matrix_is_neutral_for_multiplication() {
    let id = Matrix4::identity();
    // A matrix with varied entries: a rotation composed with a scale and
    // a translation.
    let t = {
        let mut tr = Transform::default();
        tr.set_position(vec3(3 * S, -2 * S, S / 2));
        tr.set_rotation(EulerAngles::new(
            Angle::from_sin(S / 2),
            Angle::from_sin(-S / 3),
            Angle::from_sin(S / 5),
        ));
        tr.set_scale(vec3(2 * S, S, S / 4));
        tr.get_transform()
    };
    assert_eq!(id.mul(&t), t);
    assert_eq!(t.mul(&id), t);
    assert_eq!(id.mul(&id), id);
}

#[test]
fn matrix_multiplication_is_associative_within_epsilon() {
    let a = Matrix4::rotate_euler_z(&Angle::from_sin(S / 2));
    let b = Matrix4::scale(vec3(2 * S, S / 2, 3 * S));
    let c = Matrix4::translate(vec3(S, -S, S / 7));
    let left = (a.mul(&b)).mul(&c);
    let right = a.mul(&(b.mul(&c)));
    for r in 0..4usize {
        for cc in 0..4usize {
            let d = (left.get(r, cc) - right.get(r, cc)).abs();
            assert!(d <= 4, "entry ({}, {}) differs by {}", r, cc, d);
        }
    }
}

#[test]
fn transpose_twice_restores_the_matrix() {
    let m = Matrix4::project(S, 2 * S, S, 3 * S);
    assert_eq!(m.transpose().transpose(), m);
}

#[test]
fn as_vec_is_the_transposed_scan() {
    // Sixteen distinct values, entry (r, c) holding 4 r + c.
    let m = Matrix4 {
        m00: 0,
        m01: 1,
        m02: 2,
        m03: 3,
        m10: 4,
        m11: 5,
        m12: 6,
        m13: 7,
        m20: 8,
        m21: 9,
        m22: 10,
        m23: 11,
        m30: 12,
        m31: 13,
        m32: 14,
        m33: 15,
    };
    let flat = m.as_vec();
    assert_eq!(
        flat,
        vec![0, 1, 2, 3, 4, 5, 6, 7, 8, 9, 10, 11, 12, 13, 14, 15]
    );
    for r in 0..4usize {
        for c in 0..4usize {
            assert_eq!(flat[4 * r + c], m.get(r, c));
        }
    }
    // The translation slots of a translation matrix land in the bottom
    // row of the layout.
    let t = Matrix4::translate(vec3(7, 8, 9));
    let tf = t.as_vec();
    assert_eq!(&tf[12..15], &[7, 8, 9]);
    assert_eq!(&tf[0..4], &[S, 0, 0, 0]);
}

#[test]
fn translate_and_scale_place_their_components() {
    let t = Matrix4::translate(vec3(10, 20, 30));
    assert_eq!(t.get(3, 0), 10);
    assert_eq!(t.get(3, 1), 20);
    assert_eq!(t.get(3, 2), 30);
    assert_eq!(t.get(0, 0), S);
    assert_eq!(t.get(3, 3), S);
    let s = Matrix4::scale(vec3(2 * S, 3 * S, 4 * S));
    assert_eq!(s.get(0, 0), 2 * S);
    assert_eq!(s.get(1, 1), 3 * S);
    assert_eq!(s.get(2, 2), 4 * S);
    assert_eq!(s.get(3, 3), S);
    assert_eq!(s.get(0, 1), 0);
}

#[test]
fn rotation_about_x_places_cosine_and_sine() {
    // A quarter turn: cosine zero, sine one.
    let a = Angle::new(0, S);
    let m = Matrix4::rotate_euler_x(&a);
    assert_eq!(m.get(0, 0), S);
    assert_eq!(m.get(1, 1), 0);
    assert_eq!(m.get(2, 1), -S);
    assert_eq!(m.get(1, 2), S);
    assert_eq!(m.get(2, 2), 0);
    assert_eq!(m.get(3, 3), S);
}

#[test]
fn euler_rotation_of_zero_angles_is_identity() {
    let m = Matrix4::rotate_euler(&EulerAngles::identity());
    assert_eq!(m, Matrix4::identity());
}

#[test]
fn projection_matrix_exact_entries() {
    // f = 1, aspect = 2, near = 1, far = 3.
    let m = Matrix4::project(S, 2 * S, S, 3 * S);
    assert_eq!(m.get(0, 0), S / 2);
    assert_eq!(m.get(1, 1), S);
    assert_eq!(m.get(2, 2), -2 * S);
    assert_eq!(m.get(3, 2), 3 * S);
    assert_eq!(m.get(2, 3), -S);
    assert_eq!(m.get(3, 3), S);
    assert_eq!(m.get(0, 1), 0);
}

#[test]
fn default_transform_is_identity() {
    assert_eq!(Transform::default().get_transform(), Matrix4::identity());
}

#[test]
fn transform_setters_and_getters_round_trip() {
    let mut t = Transform::default();
    t.set_position(vec3(1, 2, 3));
    t.set_scale(vec3(4, 5, 6));
    let ang = EulerAngles::new(Angle::from_sin(100), Angle::from_sin(-100), Angle::identity());
    t.set_rotation(ang);
    let p = t.get_position();
    assert_eq!((p.x, p.y, p.z), (1, 2, 3));
    let sc = t.get_scale();
    assert_eq!((sc.x, sc.y, sc.z), (4, 5, 6));
    assert_eq!(t.get_rotation(), ang);
}

#[test]
fn from_sin_recovers_cosine() {
    let a = Angle::from_sin(0);
    assert_eq!((a.cos, a.sin), (S, 0));
    let b = Angle::from_sin(S);
    assert_eq!((b.cos, b.sin), (0, S));
    let c = Angle::from_sin(-S / 2);
    assert_eq!(c.sin, -S / 2);
    // floor(sqrt(65536^2 - 32768^2)) = floor(56755.84...)
    assert_eq!(c.cos, 56755);
    // Out-of-range sines are clamped.
    let d = Angle::from_sin(3 * S);
    assert_eq!((d.cos, d.sin), (0, S));
}

#[test]
fn look_at_builds_a_camera_basis() {
    let mut t = Transform::default();
    let applied = t.look_at(vec3(0, 0, S), vec3(0, S, 0));
    assert!(applied);
    let p = t.get_position();
    assert_eq!((p.x, p.y, p.z), (0, 0, 0));
    let sc = t.get_scale();
    assert_eq!((sc.x, sc.y, sc.z), (-S, S, -S));
    let rot = t.get_rotation();
    assert_eq!((rot.x.cos, rot.x.sin), (S, 0));
    assert_eq!((rot.y.cos, rot.y.sin), (S, 0));
    assert_eq!((rot.z.cos, rot.z.sin), (S, 0));
}

#[test]
fn look_at_own_position_is_a_no_op() {
    let mut t = Transform::default();
    t.set_position(vec3(5, 5, 5));
    let before = t;
    let applied = t.look_at(vec3(5, 5, 5), vec3(0, S, 0));
    assert!(!applied);
    assert_eq!(t, before);
}

#[test]
fn camera_holds_its_projection() {
    let cam = Camera::new(S, 2 * S, S, 3 * S);
    let m = cam.get_projection_matrix();
    assert_eq!(m, Matrix4::project(S, 2 * S, S, 3 * S));
    assert_eq!(cam.transform.get_transform(), Matrix4::identity());
}

#[test]
fn uniform_payload_layout() {
    let model = Matrix4::translate(vec3(1, 2, 3));
    let view = Matrix4::identity();
    let proj = Matrix4::project(S, S, S, 2 * S);
    let u = UniformBuffer::new(model, view, proj);
    let flat = u.as_vec();
    assert_eq!(flat.len(), 52);
    assert_eq!(&flat[0..16], model.as_vec().as_slice());
    assert_eq!(&flat[16..32], view.as_vec().as_slice());
    assert_eq!(&flat[32..48], proj.as_vec().as_slice());
    assert_eq!(&flat[48..52], &[S, S, S, S]);
}
