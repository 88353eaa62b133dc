//! OBJ parsing, model loading and buffer behavior.

use scene_core::buffers::{Color4, IndexBuffer, Vertex, VertexBuffer};
use scene_core::mesh::Mesh;
use scene_core::fixed::SCALE;
use scene_core::matrix::Matrix4;
use scene_core::model::Model;
use scene_core::obj::{parse_obj, ObjError};
use scene_core::vector::Vector3;

const S: i64 = SCALE;

#[test]
fn triangle_scenario_loads_three_vertices_and_one_face() {
    let data = b"v 0.0 0.0 0.0\nv 1.0 0.0 0.0\nv 0.0 1.0 0.0\nf 1 2 3\n";
    let mut model = Model::new();
    assert!(model.load_obj(data).is_ok());
    let verts = model.get_vertices();
    assert_eq!(verts.len(), 3);
    let first = verts[0];
    assert_eq!((first.pos.x, first.pos.y, first.pos.z), (0, 0, 0));
    for v in verts {
        assert_eq!(v.color, Color4 { r: S, g: 0, b: 0, a: S });
    }
    let second = model.get_vertices()[1];
    assert_eq!((second.pos.x, second.pos.y, second.pos.z), (S, 0, 0));
    assert_eq!(model.get_indices().as_slice(), &[0u32, 1, 2]);
}

#[test]
fn malformed_number_is_a_distinguishable_failure() {
    let data = b"v 0.0 abc 0.0\n";
    let mut model = Model::new();
    let err = model.load_obj(data).unwrap_err();
    assert_eq!(err, ObjError::BadNumber { line: 1 });
    // The model is left untouched.
    assert_eq!(model.get_vertices().len(), 0);
    assert_eq!(model.get_indices().len(), 0);
}

#[test]
fn out_of_range_index_is_caught_at_load_time() {
    let data = b"v 0.0 0.0 0.0\nf 1 2 4\n";
    let mut model = Model::new();
    let err = model.load_obj(data).unwrap_err();
    assert_eq!(err, ObjError::IndexOutOfRange { index: 1, count: 1 });
}

#[test]
fn line_without_a_space_is_malformed() {
    let data = b"v 0.0 0.0 0.0\n#\n";
    let r = parse_obj(data);
    assert_eq!(r.unwrap_err(), ObjError::MalformedLine { line: 2 });
}

#[test]
fn vertex_line_needs_three_coordinates() {
    assert_eq!(
        parse_obj(b"v 1.0 2.0\n").unwrap_err(),
        ObjError::MissingCoordinate { line: 1 }
    );
    assert_eq!(
        parse_obj(b"v 1.0\n").unwrap_err(),
        ObjError::MissingCoordinate { line: 1 }
    );
}

#[test]
fn face_index_zero_is_rejected() {
    // OBJ indices are one-based; zero has no slot to name.
    let data = b"v 0.0 0.0 0.0\nf 0 1 1\n";
    assert_eq!(parse_obj(data).unwrap_err(), ObjError::BadIndex { line: 2 });
}

#[test]
fn face_with_empty_token_is_rejected() {
    let data = b"v 0.0 0.0 0.0\nf 1  1\n";
    assert_eq!(parse_obj(data).unwrap_err(), ObjError::BadIndex { line: 2 });
}

#[test]
fn face_sub_indices_are_discarded() {
    let data = b"v 0.0 0.0 0.0\nv 1.0 1.0 1.0\nv 2.0 2.0 2.0\nf 1/7/9 2/8 3//5\n";
    let (vs, is_) = parse_obj(data).unwrap();
    assert_eq!(vs.len(), 3);
    assert_eq!(is_.as_slice(), &[0u32, 1, 2]);
}

#[test]
fn unknown_tags_and_blank_lines_are_skipped() {
    let data = b"# a comment\no thing\n\nv 1.0 2.0 3.0\n\nusemtl none\n";
    let (vs, is_) = parse_obj(data).unwrap();
    assert_eq!(vs.len(), 1);
    assert_eq!(is_.len(), 0);
}

#[test]
fn carriage_returns_are_stripped() {
    let data = b"v 1.0 2.0 3.0\r\nf 1 1 1\r\n";
    let (vs, is_) = parse_obj(data).unwrap();
    assert_eq!(vs.len(), 1);
    assert_eq!(is_.as_slice(), &[0u32, 0, 0]);
}

#[test]
fn coordinates_become_exact_fixed_point_values() {
    let data = b"v -1.5 2.25 -0.125\n";
    let (vs, _) = parse_obj(data).unwrap();
    let p = vs[0].pos;
    assert_eq!((p.x, p.y, p.z), (-(3 * S / 2), 9 * S / 4, -S / 8));
}

#[test]
fn coordinate_forms_with_bare_points_parse() {
    let data = b"v .5 5. +0.25 extra tokens ignored\n";
    let (vs, _) = parse_obj(data).unwrap();
    let p = vs[0].pos;
    assert_eq!((p.x, p.y, p.z), (S / 2, 5 * S, S / 4));
}

#[test]
fn tiny_fractions_round_toward_zero() {
    let data = b"v 0.00001 0.9999999999999 0.0\n";
    let (vs, _) = parse_obj(data).unwrap();
    let p = vs[0].pos;
    // floor(0.00001 * 65536) = 0; the fraction keeps twelve digits, and
    // floor(0.999999999999 * 65536) = 65535.
    assert_eq!((p.x, p.y), (0, 65535));
}

#[test]
fn empty_input_loads_an_empty_model() {
    let (vs, is_) = parse_obj(b"").unwrap();
    assert_eq!(vs.len(), 0);
    assert_eq!(is_.len(), 0);
}

#[test]
fn doubled_signs_and_stray_points_are_rejected() {
    assert_eq!(
        parse_obj(b"v --1 0 0\n").unwrap_err(),
        ObjError::BadNumber { line: 1 }
    );
    assert_eq!(
        parse_obj(b"v 1.2.3 0 0\n").unwrap_err(),
        ObjError::BadNumber { line: 1 }
    );
    assert_eq!(
        parse_obj(b"v . 0 0\n").unwrap_err(),
        ObjError::BadNumber { line: 1 }
    );
}

#[test]
fn vertex_buffer_flattens_seven_scalars_per_vertex() {
    let mut vb = VertexBuffer::new();
    let mut a = Vertex::new();
    a.set_position(Vector3::new(1, 2, 3));
    a.set_color(Color4 { r: 4, g: 5, b: 6, a: 7 });
    let mut b = Vertex::new();
    b.set_position(Vector3::new(8, 9, 10));
    vb.add_vertex(a);
    vb.add_vertex(b);
    let flat = vb.as_vec();
    assert_eq!(&flat[0..7], &[1, 2, 3, 4, 5, 6, 7]);
    assert_eq!(&flat[7..14], &[8, 9, 10, S, S, S, S]);
    assert_eq!(flat.len(), 14);
    assert_eq!(a.as_vec().as_slice(), &[1, 2, 3, 4, 5, 6, 7]);
}

#[test]
fn index_buffer_keeps_order_and_checks_bounds() {
    let mut ib = IndexBuffer::new();
    ib.add_index(2);
    ib.add_index(0);
    ib.add_index(1);
    assert_eq!(ib.get_indices().as_slice(), &[2u32, 0, 1]);
    assert!(ib.in_bounds(3));
    assert!(!ib.in_bounds(2));
}

#[test]
fn update_keeps_positions_and_colors_in_range() {
    let data = b"v 0.5 0.5 0.5\nv -0.5 0.25 0.75\nv 0.0 0.0 0.0\nf 1 2 3\n";
    let mut model = Model::new();
    model.load_obj(data).unwrap();
    for _ in 0..5 {
        model.update();
        assert_eq!(model.get_vertices().len(), 3);
        for v in model.get_vertices() {
            assert!(-S <= v.pos.x && v.pos.x <= S);
            assert!(-S <= v.pos.y && v.pos.y <= S);
            assert!(-S <= v.pos.z && v.pos.z <= S);
            assert!(0 <= v.color.r && v.color.r <= S);
            assert!(0 <= v.color.g && v.color.g <= S);
            assert!(0 <= v.color.b && v.color.b <= S);
            assert!(0 <= v.color.a && v.color.a <= S);
        }
    }
}

#[test]
fn update_draws_fresh_values() {
    let mut vb = VertexBuffer::new();
    for _ in 0..8 {
        vb.add_vertex(Vertex::new());
    }
    vb.update();
    let verts = vb.get_vertices();
    // Eight vertices of seven uniform draws each landing on identical
    // values would be astronomically unlikely; a generator that handed a
    // constant back would fail here.
    let first = verts[0];
    let distinct = verts.iter().any(|v| v.pos != first.pos || v.color != first.color);
    assert!(distinct);
}

#[test]
fn mesh_accessors_reach_both_buffers() {
    let mut mesh = Mesh::new();
    mesh.vb().add_vertex(Vertex::new());
    mesh.vb().add_vertex(Vertex::new());
    mesh.ib().add_index(1);
    mesh.ib().add_index(0);
    assert_eq!(mesh.vb().get_vertices().len(), 2);
    assert_eq!(mesh.ib().get_indices().as_slice(), &[1u32, 0]);
    assert!(mesh.ib().in_bounds(2));
}

#[test]
fn model_setters_replace_the_placement() {
    let mut model = Model::new();
    model.set_position(10, 20, 30);
    let t = model.get_transform();
    assert_eq!(t.get(3, 0), 10);
    assert_eq!(t.get(3, 1), 20);
    assert_eq!(t.get(3, 2), 30);
    let mut model2 = Model::new();
    assert_eq!(model2.get_vertices().len(), 0);
    model2.set_scale(2 * S, 3 * S, 4 * S);
    let s = model2.get_transform();
    assert_eq!(s.get(0, 0), 2 * S);
    assert_eq!(s.get(1, 1), 3 * S);
    assert_eq!(s.get(2, 2), 4 * S);
    assert_eq!(Matrix4::new().get(0, 0), 0);
}
