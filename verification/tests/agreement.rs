use rust_opengl::face::{Face, FaceCorner};
use rust_opengl::mesh::Mesh;

fn bits(token: &[u8]) -> u32 {
    std::str::from_utf8(token).unwrap().parse::<f32>().unwrap().to_bits()
}

const CUBE: &str = "\
# a cube with one texture coordinate and one normal per side
o cube
v -1 -1 -1
v  1 -1 -1
v  1  1 -1
v -1  1 -1
v -1 -1  1
v  1 -1  1
v  1  1  1
v -1  1  1
vt 0 0
vt 1 0
vt 1 1
vt 0.5 1e0
vn 0 0 -1
vn 0 0 1
vn 0 -1 0
vn 0 1 0
vn -1.0 0 0
vn 1.0 0 0
g sides
f 1/1/1 2/2/1 3/3/1 4/4/1
f 5/1/2 8/4/2 7/3/2 6/2/2
f 1//3 5//3 6//3
f 1//3 6//3 2//3
f 4/4 3/3 7/2 8/1
f 1 4 8 5
f 2 6 7 3
";

#[test]
fn library_and_loader_read_the_same_mesh() {
    let mesh = Mesh::parse(CUBE.as_bytes(), bits).unwrap();
    let loaded = obj::ObjData::load_buf(CUBE.as_bytes()).unwrap();

    let store = mesh.store();
    assert_eq!(store.position_count(), loaded.position.len());
    assert_eq!(store.normal_count(), loaded.normal.len());
    assert_eq!(store.tex_coord_count(), loaded.texture.len());
    for (i, p) in loaded.position.iter().enumerate() {
        assert_eq!(store.position(i), Ok(p.map(f32::to_bits)));
    }
    for (i, n) in loaded.normal.iter().enumerate() {
        assert_eq!(store.normal(i), Ok(n.map(f32::to_bits)));
    }
    for (i, t) in loaded.texture.iter().enumerate() {
        assert_eq!(store.tex_coord(i), Ok(t.map(f32::to_bits)));
    }

    let mut faces = Vec::new();
    for polygon in loaded.objects.iter().flat_map(|o| o.groups.iter()).flat_map(|g| g.polys.iter())
    {
        let corners: Vec<FaceCorner> = polygon
            .0
            .iter()
            .map(|c| FaceCorner { position: c.0, texture: c.1, normal: c.2 })
            .collect();
        faces.push(Face::from_corners(&corners).unwrap());
    }
    assert_eq!(mesh.faces(), &faces);
    assert_eq!(mesh.triangles().len(), 5 * 2 + 2);
}

#[test]
fn mesh_from_the_parts_of_a_loaded_file_draws_like_the_parsed_one() {
    let parsed = Mesh::parse(CUBE.as_bytes(), bits).unwrap();
    let loaded = obj::ObjData::load_buf(CUBE.as_bytes()).unwrap();
    let mut store = rust_opengl::store::GeometryStore::new();
    for p in &loaded.position {
        store.push_position(p.map(f32::to_bits));
    }
    for n in &loaded.normal {
        store.push_normal(n.map(f32::to_bits));
    }
    for t in &loaded.texture {
        store.push_tex_coord(t.map(f32::to_bits));
    }
    let faces = parsed.faces().clone();
    let joined = Mesh::new(store, faces).unwrap();
    assert_eq!(joined.vertex_buffer(Some(0)), parsed.vertex_buffer(Some(0)));
    assert_eq!(joined.indexed_buffers(None), parsed.indexed_buffers(None));
    let (vertices, indices) = parsed.indexed_buffers(None).unwrap();
    assert_eq!(indices.len(), 36);
    // 4 + 4 for the first two sides, 3 + 1 for the two triangles, 4 for the
    // side with texture coordinates only, then 3 + 4 for the bare sides: the
    // bare corner `8` is the same vertex as `8/1`, since `vt 0 0` is zero
    assert_eq!(vertices.len(), 23);
}
