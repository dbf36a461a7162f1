use fourd::shape_maker::box_;

#[test]
fn bin_cam_transform() {}

#[test]
fn main_cam_transform() {}

#[test]
fn test_cube() {
    let cube = box_();
    assert_eq!(cube.vertex_count, 8);
    assert_eq!(cube.faces_vert.len(), 6);
}
