use fourd::mesh::{combine_meshes, vertex_id_offsets};
use fourd::shape_maker::{box_, rect_pyramid};
use fourd::{IndexArray, Mesh};

fn faces_of(m: &Mesh) -> Vec<Vec<u32>> {
    m.faces_vert.iter().map(|f| f.to_vec()).collect()
}

#[test]
fn index_array_basics() {
    let a = IndexArray::new(vec![3, 1, 4]);
    assert_eq!(a.len(), 3);
    assert_eq!(a.get(0), 3);
    assert_eq!(a.get(2), 4);
    assert_eq!(a.plus(10).to_vec(), vec![13, 11, 14]);
    assert_eq!(a.clone().to_vec(), vec![3, 1, 4]);
    assert_eq!(a.to_vec(), vec![3, 1, 4]);
}

#[test]
fn make_tris_triangle_then_quad() {
    let m = Mesh::new(5, vec![IndexArray::new(vec![0, 1, 2]), IndexArray::new(vec![1, 2, 3, 4])]);
    assert_eq!(m.tris.to_vec(), vec![0, 1, 2, 3, 4, 5, 3, 5, 6]);
    assert_eq!(m.num_face_verts(), 7);
    assert_eq!(m.vertex_count, 5);
}

#[test]
fn make_tris_rebuilds_after_faces_change() {
    let mut m = Mesh::new(4, vec![IndexArray::new(vec![0, 1, 2])]);
    m.faces_vert.push(IndexArray::new(vec![0, 1, 2, 3]));
    m.make_tris();
    assert_eq!(m.tris.to_vec(), vec![0, 1, 2, 3, 4, 5, 3, 5, 6]);
}

#[test]
fn empty_mesh_has_no_tris() {
    let m = Mesh::new(0, vec![]);
    assert_eq!(m.tris.len(), 0);
    assert_eq!(m.num_face_verts(), 0);
}

#[test]
fn num_face_verts_of_box_is_24() {
    let b = box_();
    assert_eq!(b.num_face_verts(), 24);
    assert_eq!(b.tris.len(), 36);
}

#[test]
fn tris_stay_within_face_vertices() {
    let b = box_();
    let n = b.num_face_verts();
    assert!(b.tris.to_vec().iter().all(|&t| t < n));
    assert_eq!(b.tris.len() % 3, 0);
}

#[test]
fn combine_box_and_pyramid() {
    let offsets = vertex_id_offsets(&box_(), &vec![rect_pyramid()]);
    assert_eq!(offsets, vec![8]);
    let house = combine_meshes(box_(), vec![rect_pyramid()]);
    assert_eq!(house.vertex_count, 13);
    let faces = faces_of(&house);
    assert_eq!(faces.len(), 11);
    assert_eq!(faces[0], vec![0, 1, 2, 3]);
    assert_eq!(faces[6], vec![8, 9, 10, 11]);
    assert_eq!(faces[7], vec![8, 9, 12]);
    assert_eq!(faces[10], vec![11, 8, 12]);
    // 6 quads and 1 quad (24 + 4), then 4 triangles.
    assert_eq!(house.num_face_verts(), 40);
    let tris = house.tris.to_vec();
    assert_eq!(tris.len(), 6 * 6 + 6 + 4 * 3);
    assert_eq!(&tris[36..42], &[24, 25, 26, 24, 26, 27]);
    assert_eq!(&tris[42..45], &[28, 29, 30]);
}

#[test]
fn combine_offsets_accumulate() {
    let offsets = vertex_id_offsets(&box_(), &vec![rect_pyramid(), box_(), rect_pyramid()]);
    assert_eq!(offsets, vec![8, 13, 21]);
    let m = combine_meshes(box_(), vec![rect_pyramid(), box_(), rect_pyramid()]);
    assert_eq!(m.vertex_count, 26);
    let faces = faces_of(&m);
    assert_eq!(faces[11], vec![13, 14, 15, 16]);
    assert_eq!(faces[17], vec![21, 22, 23, 24]);
}

#[test]
fn combine_nothing_keeps_mesh() {
    let m = combine_meshes(box_(), vec![]);
    assert_eq!(m.vertex_count, 8);
    assert_eq!(faces_of(&m), faces_of(&box_()));
}

#[test]
fn combine_in_steps_equals_at_once() {
    let ab = combine_meshes(box_(), vec![rect_pyramid()]);
    let stepwise = combine_meshes(ab, vec![box_()]);
    let at_once = combine_meshes(box_(), vec![rect_pyramid(), box_()]);
    assert_eq!(stepwise.vertex_count, at_once.vertex_count);
    assert_eq!(faces_of(&stepwise), faces_of(&at_once));
    assert_eq!(stepwise.tris.to_vec(), at_once.tris.to_vec());
}

