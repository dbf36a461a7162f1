use fourd::shape_maker::{
    arrow, box_, fivecell, grid_4d, hypergrid, hyperrect, origin, rect_pyramid, spherinder,
    terrain, terrain_edge_pairs, twentyfourcell, GridCell, NormalSource,
};
use fourd::shape_maker::{
    box_coords, hyperrect_coords, rect_pyramid_coords, twentyfourcell_coords, UnitCoord,
};
use fourd::Mesh;

fn faces_of(m: &Mesh) -> Vec<Vec<u32>> {
    m.faces_vert.iter().map(|f| f.to_vec()).collect()
}

fn ids_valid(m: &Mesh) -> bool {
    faces_of(m).iter().all(|f| f.iter().all(|&i| i < m.vertex_count))
}

#[test]
fn box_faces() {
    let b = box_();
    assert_eq!(b.vertex_count, 8);
    assert_eq!(
        faces_of(&b),
        vec![
            vec![0, 1, 2, 3],
            vec![4, 5, 6, 7],
            vec![3, 2, 6, 7],
            vec![0, 1, 5, 4],
            vec![0, 4, 7, 3],
            vec![1, 5, 6, 2]
        ]
    );
    assert_eq!(&b.tris.to_vec()[0..12], &[0, 1, 2, 0, 2, 3, 4, 5, 6, 4, 6, 7]);
}

#[test]
fn pyramid_faces() {
    let p = rect_pyramid();
    assert_eq!(p.vertex_count, 5);
    assert_eq!(faces_of(&p)[0], vec![0, 1, 2, 3]);
    assert_eq!(faces_of(&p)[4], vec![3, 0, 4]);
    assert_eq!(p.num_face_verts(), 16);
}

#[test]
fn fivecell_faces() {
    let f = fivecell();
    assert_eq!(f.vertex_count, 5);
    assert_eq!(f.faces_vert.len(), 10);
    assert_eq!(faces_of(&f)[9], vec![4, 2, 3]);
    assert_eq!(f.num_face_verts(), 30);
    assert!(ids_valid(&f));
}

#[test]
fn hyperrect_faces() {
    let h = hyperrect();
    assert_eq!(h.vertex_count, 16);
    assert_eq!(h.faces_vert.len(), 24);
    assert!(faces_of(&h).iter().all(|f| f.len() == 4));
    assert_eq!(faces_of(&h)[23], vec![14, 13, 5, 6]);
    assert_eq!(h.num_face_verts(), 96);
}

#[test]
fn twentyfourcell_has_96_triangles() {
    let t = twentyfourcell();
    assert_eq!(t.vertex_count, 24);
    assert_eq!(t.faces_vert.len(), 96);
    assert!(faces_of(&t).iter().all(|f| f.len() == 3));
    assert!(ids_valid(&t));
    assert_eq!(t.tris.len(), 288);
    assert_eq!(faces_of(&t)[67], vec![11, 9, 4]);
    let mut sets: Vec<Vec<u32>> = faces_of(&t)
        .into_iter()
        .map(|mut f| {
            f.sort();
            f
        })
        .collect();
    sets.sort();
    sets.dedup();
    assert_eq!(sets.len(), 96);
}

#[test]
fn terrain_small_grid() {
    let t = terrain(3);
    assert_eq!(t.vertex_count, 9);
    assert_eq!(
        faces_of(&t),
        vec![
            vec![0, 1, 4],
            vec![0, 4, 3],
            vec![1, 2, 5],
            vec![1, 5, 4],
            vec![3, 4, 7],
            vec![3, 7, 6],
            vec![4, 5, 8],
            vec![4, 8, 7]
        ]
    );
    assert_eq!(t.tris.len(), 24);
}

#[test]
fn terrain_single_vertex() {
    let t = terrain(1);
    assert_eq!(t.vertex_count, 1);
    assert_eq!(t.faces_vert.len(), 0);
}

#[test]
fn terrain_edge_pairs_small_grid() {
    let e = terrain_edge_pairs(3);
    assert_eq!(e.len(), 4);
    assert_eq!(e[0], vec![(1, 4), (4, 3)]);
    assert_eq!(e[1], vec![(2, 5), (5, 4), (4, 3), (3, 0)]);
    assert_eq!(e[2], vec![(4, 7), (7, 6), (0, 1), (1, 4)]);
    assert_eq!(e[3], vec![(5, 8), (8, 7), (7, 6), (6, 3), (3, 0), (0, 1), (1, 2), (2, 5)]);
}

#[test]
fn terrain_edge_pairs_two_by_two() {
    // The only square still has its neighbouring face.
    assert_eq!(terrain_edge_pairs(2), vec![vec![(1, 3), (3, 2)]]);
}

#[test]
fn terrain_edge_pairs_inner_cell() {
    let e = terrain_edge_pairs(4);
    assert_eq!(e.len(), 9);
    assert_eq!(e[4], vec![(6, 10), (10, 9), (9, 8), (8, 4), (4, 0), (0, 1), (1, 2), (2, 6)]);
}

#[test]
fn spherinder_degenerate_resolutions() {
    let (m0, n0) = spherinder(0);
    assert_eq!(m0.vertex_count, 4);
    assert_eq!(m0.faces_vert.len(), 0);
    assert_eq!(n0.len(), 0);
    let (m2, _) = spherinder(2);
    assert_eq!(m2.vertex_count, 8);
    assert_eq!(m2.faces_vert.len(), 0);
}

#[test]
fn spherinder_resolution_four() {
    let (m, normals) = spherinder(4);
    assert_eq!(m.vertex_count, 20);
    let faces = faces_of(&m);
    assert_eq!(faces.len(), 24);
    assert_eq!(normals.len(), 24);
    assert_eq!(faces[0], vec![0, 1, 3, 2]);
    assert_eq!(faces[1], vec![10, 11, 13, 12]);
    assert_eq!(faces[2], vec![0, 2, 9]);
    assert_eq!(faces[3], vec![10, 12, 19]);
    assert_eq!(faces[4], vec![0, 1, 10, 11]);
    assert_eq!(faces[5], vec![3, 2, 13, 12]);
    // The last longitude wraps to the first.
    assert_eq!(faces[18], vec![6, 7, 1, 0]);
    assert_eq!(faces[19], vec![16, 17, 11, 10]);
    assert_eq!(faces[20], vec![6, 0, 9]);
    assert_eq!(faces[21], vec![16, 10, 19]);
    assert_eq!(faces[23], vec![1, 0, 11, 10]);
    assert!(matches!(normals[18], NormalSource::Cross(6, 0, 1)));
    assert!(ids_valid(&m));
    // No two faces of a sphere join the same vertices.
    let mut first_sphere: Vec<Vec<u32>> = faces
        .iter()
        .filter(|f| f.iter().all(|&i| i < 10))
        .map(|f| {
            let mut f = f.clone();
            f.sort();
            f
        })
        .collect();
    let n = first_sphere.len();
    first_sphere.sort();
    first_sphere.dedup();
    assert_eq!(first_sphere.len(), n);
    assert_eq!(n, 8);
    assert!(matches!(normals[0], NormalSource::Cross(0, 2, 3)));
    assert!(matches!(normals[2], NormalSource::Cross(0, 2, 9)));
    assert!(matches!(normals[4], NormalSource::Zero));
    assert_eq!(m.num_face_verts(), 4 * (16 + 6));
}

#[test]
fn arrow_appends_fivecell_point() {
    let a = arrow(4);
    assert_eq!(a.vertex_count, 25);
    let faces = faces_of(&a);
    assert_eq!(faces.len(), 34);
    assert_eq!(faces[24], vec![20, 21, 22]);
    assert_eq!(faces[33], vec![24, 22, 23]);
    assert!(ids_valid(&a));
}

#[test]
fn origin_is_four_arrows() {
    let o = origin(4);
    assert_eq!(o.vertex_count, 100);
    let faces = faces_of(&o);
    assert_eq!(faces.len(), 136);
    assert_eq!(faces[34], vec![25, 26, 28, 27]);
    assert_eq!(faces[34 + 18], vec![31, 32, 26, 25]);
    assert_eq!(faces[135], vec![99, 97, 98]);
    assert!(ids_valid(&o));
}

#[test]
fn hypergrid_ids() {
    let cells = hypergrid(2);
    assert_eq!(cells.len(), 8);
    assert_eq!(cells[5], GridCell { id: 5, i: 1, j: 0, k: 1 });
    assert!(cells.iter().enumerate().all(|(t, c)| c.id as usize == t));
    assert_eq!(hypergrid(0).len(), 0);
    let c3 = hypergrid(3);
    assert_eq!(c3[14], GridCell { id: 14, i: 1, j: 1, k: 2 });
}

#[test]
fn grid_4d_ids() {
    let cells = grid_4d(2);
    assert_eq!(cells.len(), 16);
    assert_eq!(cells[11].id, 11);
    assert_eq!(cells[11].layer, 1);
    assert_eq!(cells[11].cell, GridCell { id: 3, i: 0, j: 1, k: 1 });
}

fn sq_dist(p: UnitCoord, q: UnitCoord) -> i32 {
    let d = [
        p.0 as i32 - q.0 as i32,
        p.1 as i32 - q.1 as i32,
        p.2 as i32 - q.2 as i32,
        p.3 as i32 - q.3 as i32,
    ];
    d.iter().map(|x| x * x).sum()
}

fn faces_follow_edges(m: &Mesh, coords: &[UnitCoord], lo: i32, hi: i32) -> bool {
    faces_of(m).iter().all(|f| {
        (0..f.len()).all(|k| {
            let d = sq_dist(coords[f[k] as usize], coords[f[(k + 1) % f.len()] as usize]);
            lo <= d && d <= hi
        })
    })
}

#[test]
fn box_coords_are_cube_corners() {
    let c = box_coords();
    assert_eq!(c.len(), 8);
    assert_eq!(c[0], (-1, -1, -1, 0));
    assert_eq!(c[6], (1, 1, 1, 0));
    assert!(faces_follow_edges(&box_(), &c, 4, 4));
}

#[test]
fn rect_pyramid_faces_use_no_base_diagonal() {
    let c = rect_pyramid_coords();
    assert_eq!(c[4], (0, 1, 0, 0));
    assert!(faces_follow_edges(&rect_pyramid(), &c, 3, 4));
    assert_eq!(sq_dist(c[0], c[2]), 8);
}

#[test]
fn hyperrect_coords_are_tesseract_corners() {
    let c = hyperrect_coords();
    assert_eq!(c.len(), 16);
    assert_eq!(c[4], (-1, -1, 1, -1));
    assert_eq!(c[14], (1, 1, 1, 1));
    assert!(faces_follow_edges(&hyperrect(), &c, 4, 4));
}

#[test]
fn twentyfourcell_faces_are_edge_triangles() {
    let c = twentyfourcell_coords();
    assert_eq!(c.len(), 24);
    assert_eq!(c[4], (0, -1, 0, 1));
    assert_eq!(c[9], (-1, -1, 0, 0));
    assert_eq!(c[11], (0, -1, -1, 0));
    assert!(faces_follow_edges(&twentyfourcell(), &c, 2, 2));
    // Every vertex has eight neighbours at the edge length.
    for i in 0..24 {
        let n = (0..24).filter(|&j| sq_dist(c[i], c[j]) == 2).count();
        assert_eq!(n, 8);
    }
}

fn distinct_id_sets(m: &Mesh) -> bool {
    let mut sets: Vec<Vec<u32>> = faces_of(m)
        .into_iter()
        .map(|mut f| {
            f.sort();
            f
        })
        .collect();
    let n = sets.len();
    sets.sort();
    sets.dedup();
    sets.len() == n
}

#[test]
fn polytope_faces_have_distinct_id_sets() {
    assert!(distinct_id_sets(&box_()));
    assert!(distinct_id_sets(&rect_pyramid()));
    assert!(distinct_id_sets(&fivecell()));
    assert!(distinct_id_sets(&hyperrect()));
    assert!(distinct_id_sets(&twentyfourcell()));
}
