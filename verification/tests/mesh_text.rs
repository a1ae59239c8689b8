use rust_opengl::error::{MeshError, ParseError};
use rust_opengl::face::{Face, FaceCorner, Triangle};
use rust_opengl::mesh::{Mesh, Vertex};
use rust_opengl::record::{read_corner, Totals};

fn bits(token: &[u8]) -> u32 {
    std::str::from_utf8(token).unwrap().parse::<f32>().unwrap().to_bits()
}

fn floats3(v: [u32; 3]) -> [f32; 3] {
    [f32::from_bits(v[0]), f32::from_bits(v[1]), f32::from_bits(v[2])]
}

fn floats2(v: [u32; 2]) -> [f32; 2] {
    [f32::from_bits(v[0]), f32::from_bits(v[1])]
}

fn corner(position: usize) -> FaceCorner {
    FaceCorner { position, texture: None, normal: None }
}

fn refused(text: &str) -> ParseError {
    match Mesh::parse(text.as_bytes(), bits) {
        Ok(_) => panic!("the text was accepted"),
        Err(e) => e,
    }
}

const SQUARE: &str = "v 0 0 0\nv 1 0 0\nv 1 1 0\nv 0 1 0\nf 1 2 3 4\n";

#[test]
fn quad_splits_into_a_fan_from_its_first_corner() {
    let mesh = Mesh::parse(SQUARE.as_bytes(), bits).unwrap();
    assert_eq!(
        mesh.faces(),
        &vec![Face::Quad(corner(0), corner(1), corner(2), corner(3))]
    );
    assert_eq!(
        mesh.triangles(),
        vec![
            Triangle { corners: [corner(0), corner(1), corner(2)] },
            Triangle { corners: [corner(0), corner(1), corner(3)] },
        ]
    );
}

#[test]
fn square_expands_to_six_vertices() {
    let mesh = Mesh::parse(SQUARE.as_bytes(), bits).unwrap();
    let vertices = mesh.vertex_buffer(None);
    assert_eq!(vertices.len(), 6);
    let positions: Vec<[f32; 3]> = vertices.iter().map(|v| floats3(v.v_position)).collect();
    assert_eq!(
        positions,
        vec![
            [0.0, 0.0, 0.0],
            [1.0, 0.0, 0.0],
            [1.0, 1.0, 0.0],
            [0.0, 0.0, 0.0],
            [1.0, 0.0, 0.0],
            [0.0, 1.0, 0.0],
        ]
    );
    let weights: Vec<[f32; 3]> =
        vertices.iter().map(|v| floats3(v.v_barycentric.unwrap())).collect();
    assert_eq!(
        weights,
        vec![
            [1.0, 0.0, 0.0],
            [0.0, 1.0, 0.0],
            [0.0, 0.0, 1.0],
            [1.0, 0.0, 0.0],
            [0.0, 1.0, 0.0],
            [0.0, 0.0, 1.0],
        ]
    );
    for v in &vertices {
        assert_eq!(floats3(v.v_normal), [0.0, 0.0, 0.0]);
        assert_eq!(floats2(v.v_tex_coords), [0.0, 0.0]);
        assert_eq!(v.v_tex_id, None);
    }
}

#[test]
fn corner_with_empty_texture_part() {
    let totals = Totals { positions: 5, normals: 2, tex_coords: 0 };
    assert_eq!(
        read_corner(b"5//2", &totals),
        Ok(FaceCorner { position: 4, texture: None, normal: Some(1) })
    );
}

#[test]
fn corner_with_empty_texture_part_resolves_with_defaults() {
    let text = "v 0 0 0\nv 1 0 0\nv 1 1 0\nv 0 1 0\nv 2.5 -3 4e1\n\
                vn 1 0 0\nvn 0 0.5 -1\n\
                f 5//2 1//1 2//1\n";
    let mesh = Mesh::parse(text.as_bytes(), bits).unwrap();
    let first = match mesh.faces()[0] {
        Face::Tri(c, _, _) => c,
        Face::Quad(..) => panic!("a quad"),
    };
    assert_eq!(first, FaceCorner { position: 4, texture: None, normal: Some(1) });
    let v = mesh.create_vertex(&first, Some(7)).unwrap();
    assert_eq!(floats3(v.v_position), [2.5, -3.0, 40.0]);
    assert_eq!(floats2(v.v_tex_coords), [0.0, 0.0]);
    assert_eq!(floats3(v.v_normal), [0.0, 0.5, -1.0]);
    assert_eq!(v.v_barycentric, None);
    assert_eq!(v.v_tex_id, Some(7));
}

#[test]
fn corner_with_all_three_parts() {
    let text = "v 0 0 0\nv 1 0 0\nv 1 1 0\nvt 0.25 0.75\nvn 0 0 1\nf 1/1/1 2/1/1 3/1/1\n";
    let mesh = Mesh::parse(text.as_bytes(), bits).unwrap();
    let vertices = mesh.vertex_buffer(Some(3));
    assert_eq!(vertices.len(), 3);
    for v in &vertices {
        assert_eq!(floats2(v.v_tex_coords), [0.25, 0.75]);
        assert_eq!(floats3(v.v_normal), [0.0, 0.0, 1.0]);
        assert_eq!(v.v_tex_id, Some(3));
    }
    assert_eq!(floats3(vertices[2].v_position), [1.0, 1.0, 0.0]);
}

#[test]
fn position_index_zero_dangles() {
    let e = refused("v 0 0 0\nv 1 0 0\nv 1 1 0\nf 0 1 2\n");
    assert_eq!(e.kind, MeshError::DanglingReference);
    assert_eq!(e.line, 4);
    assert_eq!(e.content, b"f 0 1 2".to_vec());
}

#[test]
fn position_index_beyond_the_declared_dangles() {
    let e = refused("v 0 0 0\nv 1 0 0\nv 1 1 0\nf 1 2 4\n");
    assert_eq!(e.kind, MeshError::DanglingReference);
    assert_eq!(e.line, 4);
}

#[test]
fn negative_index_dangles() {
    let e = refused("v 0 0 0\nv 1 0 0\nv 1 1 0\nf 1 2 -1\n");
    assert_eq!(e.kind, MeshError::DanglingReference);
}

#[test]
fn index_too_large_for_the_machine_dangles() {
    let e = refused("v 0 0 0\nv 1 0 0\nv 1 1 0\nf 1 2 99999999999999999999999999999999999999999\n");
    assert_eq!(e.kind, MeshError::DanglingReference);
}

#[test]
fn texture_and_normal_indices_dangle_too() {
    let e = refused("v 0 0 0\nv 1 0 0\nv 1 1 0\nvt 0 0\nf 1/1 2/2 3/1\n");
    assert_eq!(e.kind, MeshError::DanglingReference);
    let e = refused("v 0 0 0\nv 1 0 0\nv 1 1 0\nf 1//1 2//1 3//1\n");
    assert_eq!(e.kind, MeshError::DanglingReference);
    let e = refused("v 0 0 0\nv 1 0 0\nv 1 1 0\nvn 0 0 1\nf 1//1 2//0 3//1\n");
    assert_eq!(e.kind, MeshError::DanglingReference);
}

#[test]
fn face_may_refer_to_what_is_declared_behind_it() {
    let text = "f 1 2 3\nv 0 0 0\nv 1 0 0\nv 1 1 0\n";
    let mesh = Mesh::parse(text.as_bytes(), bits).unwrap();
    assert_eq!(mesh.faces().len(), 1);
    assert_eq!(mesh.store().position_count(), 3);
    let vertices = mesh.vertex_buffer(None);
    assert_eq!(floats3(vertices[1].v_position), [1.0, 0.0, 0.0]);
}

#[test]
fn too_few_scalars_are_malformed() {
    let e = refused("v 0 0 0\nv 1 0\n");
    assert_eq!(e.kind, MeshError::MalformedLine);
    assert_eq!(e.line, 2);
    assert_eq!(e.content, b"v 1 0".to_vec());
    assert_eq!(refused("vt 1\n").kind, MeshError::MalformedLine);
    assert_eq!(refused("vn 1 2\n").kind, MeshError::MalformedLine);
    assert_eq!(refused("v\n").kind, MeshError::MalformedLine);
}

#[test]
fn scalar_that_is_no_number_is_malformed() {
    let e = refused("v 0 0 0\n\nv 1 x 0\n");
    assert_eq!(e.kind, MeshError::MalformedLine);
    assert_eq!(e.line, 3);
    assert_eq!(refused("v 1 2 1e\n").kind, MeshError::MalformedLine);
    assert_eq!(refused("v 1 . 2\n").kind, MeshError::MalformedLine);
    assert_eq!(refused("v 1 2 nan\n").kind, MeshError::MalformedLine);
    assert_eq!(refused("vt 0.5 --1\n").kind, MeshError::MalformedLine);
}

#[test]
fn corner_that_is_no_index_is_malformed() {
    let e = refused("v 0 0 0\nv 1 0 0\nv 1 1 0\nf 1 2 x\n");
    assert_eq!(e.kind, MeshError::MalformedLine);
    assert_eq!(e.line, 4);
    assert_eq!(refused("v 0 0 0\nf 1 1 1/1/1/1\n").kind, MeshError::MalformedLine);
    assert_eq!(refused("v 0 0 0\nf 1 1 /1\n").kind, MeshError::MalformedLine);
    assert_eq!(refused("v 0 0 0\nf 1 1 1.0\n").kind, MeshError::MalformedLine);
}

#[test]
fn spelling_is_judged_before_references() {
    let e = refused("v 0 0 0\nf 9 1 x\n");
    assert_eq!(e.kind, MeshError::MalformedLine);
}

#[test]
fn face_with_two_or_five_corners_is_unsupported() {
    let e = refused("v 0 0 0\nv 1 0 0\nf 1 2\n");
    assert_eq!(e.kind, MeshError::UnsupportedArity);
    assert_eq!(e.line, 3);
    let e = refused("v 0 0 0\nf 1 1 1 1 1\n");
    assert_eq!(e.kind, MeshError::UnsupportedArity);
    assert_eq!(refused("f\n").kind, MeshError::UnsupportedArity);
    assert_eq!(refused("f x y\n").kind, MeshError::UnsupportedArity);
}

#[test]
fn first_line_in_error_decides() {
    let e = refused("v 0 0 0\nf 1 1 2\nv 1 0\nf 1 2\n");
    assert_eq!(e.kind, MeshError::MalformedLine);
    assert_eq!(e.line, 3);
    let e = refused("v 0 0 0\nf 1 1 3\nv 1 0\n");
    assert_eq!(e.kind, MeshError::DanglingReference);
    assert_eq!(e.line, 2);
}

#[test]
fn other_lines_are_passed_over() {
    let text = "# a square\n\no plane\nmtllib a.mtl\n   \t \nv 0 0 0 # origin\nv 1 0 0 1.0\nv 1 1 0\ns off\nvp 1 2\n#f 1 2 9\nf 1 2 3\r\n";
    let mesh = Mesh::parse(text.as_bytes(), bits).unwrap();
    assert_eq!(mesh.store().position_count(), 3);
    assert_eq!(mesh.store().normal_count(), 0);
    assert_eq!(mesh.store().tex_coord_count(), 0);
    assert_eq!(mesh.faces(), &vec![Face::Tri(corner(0), corner(1), corner(2))]);
}

#[test]
fn empty_text_is_an_empty_mesh() {
    let mesh = Mesh::parse(b"", bits).unwrap();
    assert_eq!(mesh.faces().len(), 0);
    assert_eq!(mesh.store().position_count(), 0);
    assert_eq!(mesh.triangles().len(), 0);
    assert_eq!(mesh.vertex_buffer(None), Vec::<Vertex>::new());
}

#[test]
fn scalars_keep_their_order_and_their_bits() {
    let text = "v 1 2 3\nvn -0 0.1 1e-3\nvt +.5 7.\nv 4 5 6\n";
    let mesh = Mesh::parse(text.as_bytes(), bits).unwrap();
    let store = mesh.store();
    assert_eq!(store.position(0), Ok([1.0f32.to_bits(), 2.0f32.to_bits(), 3.0f32.to_bits()]));
    assert_eq!(store.position(1), Ok([4.0f32.to_bits(), 5.0f32.to_bits(), 6.0f32.to_bits()]));
    assert_eq!(
        store.normal(0),
        Ok([(-0.0f32).to_bits(), 0.1f32.to_bits(), 0.001f32.to_bits()])
    );
    assert_eq!(store.tex_coord(0), Ok([0.5f32.to_bits(), 7.0f32.to_bits()]));
    assert_eq!(store.position(2), Err(MeshError::DanglingReference));
    assert_eq!(store.normal(1), Err(MeshError::DanglingReference));
    assert_eq!(store.tex_coord(1), Err(MeshError::DanglingReference));
}

#[test]
fn number_is_asked_for_every_scalar_and_nothing_else() {
    let asked = std::cell::RefCell::new(Vec::<String>::new());
    let text = "v 1 2 3 4\nx 5 6\nvt 7 8 9\nf 1 1 1\n";
    let mesh = Mesh::parse(text.as_bytes(), |t: &[u8]| {
        asked.borrow_mut().push(String::from_utf8(t.to_vec()).unwrap());
        bits(t)
    })
    .unwrap();
    assert_eq!(mesh.store().position_count(), 1);
    assert_eq!(asked.into_inner(), vec!["1", "2", "3", "7", "8"]);
}
