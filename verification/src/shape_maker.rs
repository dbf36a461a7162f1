//! Connectivity of the shapes: which vertex ids each face joins.  Vertex
//! positions are computed by the caller, with vertex `k` of a shape at the
//! `k`-th coordinate that the shape lists.

use vstd::arithmetic::div_mod::lemma_fundamental_div_mod;
use vstd::arithmetic::div_mod::lemma_fundamental_div_mod_converse;
use vstd::arithmetic::div_mod::lemma_mod_pos_bound;
use vstd::prelude::*;

use crate::index_array::IndexArray;
use crate::mesh::{
    appended_faces, combine_meshes, combined_faces, drawable, face_vertex_sum, face_vertex_total,
    faces_view, lemma_appended_faces, lemma_drawable_concat, lemma_face_vertex_total_bound,
    lemma_face_vertex_total_concat, lemma_face_vertex_total_push, lemma_face_vertex_total_uniform, lemma_offsets_fit,
    lemma_shift_faces, offsets_fit, shift_faces, vertex_count_sum, Mesh,
};

verus! {

/// The faces of a table of vertex-id lists.
pub open spec fn table_view(table: Seq<Vec<u32>>) -> Seq<Seq<u32>> {
    table.map_values(|v: Vec<u32>| v@)
}

/// Every id of every face is below `n`.
pub open spec fn ids_below(faces: Seq<Seq<u32>>, n: int) -> bool {
    forall|i: int, j: int| 0 <= i < faces.len() && 0 <= j < faces[i].len() ==> #[trigger] faces[i][j] < n
}

/// A mesh of `vertex_count` vertices with the faces of `table`.
fn mesh_from_table(vertex_count: u32, table: Vec<Vec<u32>>) -> (m: Mesh)
    requires
        drawable(table_view(table@)),
        table@.len() <= 1000,
    ensures
        m.vertex_count == vertex_count,
        m.faces() == table_view(table@),
        m.tris_built(),
{
    let ghost tv = table_view(table@);
    let mut faces: Vec<IndexArray> = Vec::new();
    let mut table = table;
    let ghost orig = table@;
    let mut k: usize = 0;
    let n = table.len();
    while k < n
        invariant
            n == orig.len(),
            tv == table_view(orig),
            0 <= k <= n,
            table@.len() == n,
            forall|i: int| k <= i < n ==> #[trigger] table@[i] == orig[i],
            faces_view(faces@) == tv.take(k as int),
        decreases n - k,
    {
        let mut v: Vec<u32> = Vec::new();
        std::mem::swap(&mut v, &mut table[k]);
        assert(v@ == orig[k as int]@);
        let face = IndexArray::new(v);
        let ghost before = faces_view(faces@);
        faces.push(face);
        assert(faces_view(faces@) =~= before.push(face@));
        assert(tv[k as int] == orig[k as int]@);
        assert(faces_view(faces@) =~= tv.take(k + 1));
        k = k + 1;
    }
    assert(tv.take(n as int) =~= tv);
    proof {
        lemma_face_vertex_total_bound(tv);
    }
    Mesh::new(vertex_count, faces)
}

/// The faces of a rectangular prism: front, back, top, bottom, left, right.
pub open spec fn box_faces() -> Seq<Seq<u32>> {
    seq![
        seq![0u32, 1, 2, 3],
        seq![4u32, 5, 6, 7],
        seq![3u32, 2, 6, 7],
        seq![0u32, 1, 5, 4],
        seq![0u32, 4, 7, 3],
        seq![1u32, 5, 6, 2],
    ]
}

/// A rectangular prism: 8 vertices (front face 0–3, back face 4–7) and six
/// quadrilateral faces.
pub fn box_() -> (m: Mesh)
    ensures
        m.vertex_count == 8,
        m.faces() == box_faces(),
        m.tris_built(),
        m.wf(),
{
    let table = vec![
        vec![0u32, 1, 2, 3],
        vec![4u32, 5, 6, 7],
        vec![3u32, 2, 6, 7],
        vec![0u32, 1, 5, 4],
        vec![0u32, 4, 7, 3],
        vec![1u32, 5, 6, 2],
    ];
    assert(table_view(table@) =~= box_faces());
    let m = mesh_from_table(8, table);
    assert(ids_below(box_faces(), 8));
    m
}

/// The faces of a rectangular pyramid: the base square, then the front, right, back and left triangles.
pub open spec fn rect_pyramid_faces() -> Seq<Seq<u32>> {
    seq![
        seq![0u32, 1, 2, 3],
        seq![0u32, 1, 4],
        seq![1u32, 2, 4],
        seq![2u32, 3, 4],
        seq![3u32, 0, 4],
    ]
}

/// A rectangular pyramid: the base corners are vertices 0–3, the apex is vertex 4.
pub fn rect_pyramid() -> (m: Mesh)
    ensures
        m.vertex_count == 5,
        m.faces() == rect_pyramid_faces(),
        m.tris_built(),
        m.wf(),
{
    let table = vec![
        vec![0u32, 1, 2, 3],
        vec![0u32, 1, 4],
        vec![1u32, 2, 4],
        vec![2u32, 3, 4],
        vec![3u32, 0, 4],
    ];
    assert(table_view(table@) =~= rect_pyramid_faces());
    let m = mesh_from_table(5, table);
    assert(ids_below(rect_pyramid_faces(), 5));
    m
}

/// The faces of the 5-cell: the four faces of the base tetrahedron, then the six triangles joining the middle vertex to the base edges.
pub open spec fn fivecell_faces() -> Seq<Seq<u32>> {
    seq![
        seq![0u32, 1, 2],
        seq![0u32, 1, 3],
        seq![1u32, 2, 3],
        seq![2u32, 0, 3],
        seq![4u32, 0, 1],
        seq![4u32, 1, 2],
        seq![4u32, 2, 0],
        seq![4u32, 0, 3],
        seq![4u32, 1, 3],
        seq![4u32, 2, 3],
    ]
}

/// The 5-cell (4-simplex): a tetrahedron (vertices 0–3, 3 on top) and a middle vertex 4 along the fourth axis; ten triangular faces.
pub fn fivecell() -> (m: Mesh)
    ensures
        m.vertex_count == 5,
        m.faces() == fivecell_faces(),
        m.faces().len() == 10,
        forall|i: int| 0 <= i < m.faces().len() ==> (#[trigger] m.faces()[i]).len() == 3,
        m.tris_built(),
        m.wf(),
{
    let table = vec![
        vec![0u32, 1, 2],
        vec![0u32, 1, 3],
        vec![1u32, 2, 3],
        vec![2u32, 0, 3],
        vec![4u32, 0, 1],
        vec![4u32, 1, 2],
        vec![4u32, 2, 0],
        vec![4u32, 0, 3],
        vec![4u32, 1, 3],
        vec![4u32, 2, 3],
    ];
    assert(table_view(table@) =~= fivecell_faces());
    let m = mesh_from_table(5, table);
    assert(ids_below(fivecell_faces(), 5));
    m
}

/// The faces of a hyperrectangle: the inner and outer cubes' six faces each, then the twelve squares joining them.
pub open spec fn hyperrect_faces() -> Seq<Seq<u32>> {
    seq![
        seq![0u32, 1, 2, 3],
        seq![4u32, 5, 6, 7],
        seq![3u32, 2, 6, 7],
        seq![0u32, 1, 5, 4],
        seq![0u32, 4, 7, 3],
        seq![1u32, 5, 6, 2],
        seq![8u32, 9, 10, 11],
        seq![12u32, 13, 14, 15],
        seq![11u32, 10, 14, 15],
        seq![8u32, 9, 13, 12],
        seq![8u32, 12, 15, 11],
        seq![9u32, 13, 14, 10],
        seq![8u32, 9, 1, 0],
        seq![12u32, 13, 5, 4],
        seq![12u32, 8, 0, 4],
        seq![9u32, 13, 5, 1],
        seq![11u32, 10, 2, 3],
        seq![15u32, 14, 6, 7],
        seq![15u32, 11, 3, 7],
        seq![14u32, 10, 2, 6],
        seq![11u32, 8, 0, 3],
        seq![15u32, 12, 4, 7],
        seq![10u32, 9, 1, 2],
        seq![14u32, 13, 5, 6],
    ]
}

/// A hyperrectangle (tesseract when its sides are equal): the inner cube is vertices 0–7, the outer cube 8–15, laid out as in `box_`; 24 square faces.
pub fn hyperrect() -> (m: Mesh)
    ensures
        m.vertex_count == 16,
        m.faces() == hyperrect_faces(),
        m.faces().len() == 24,
        forall|i: int| 0 <= i < m.faces().len() ==> (#[trigger] m.faces()[i]).len() == 4,
        m.tris_built(),
        m.wf(),
{
    let table = vec![
        vec![0u32, 1, 2, 3],
        vec![4u32, 5, 6, 7],
        vec![3u32, 2, 6, 7],
        vec![0u32, 1, 5, 4],
        vec![0u32, 4, 7, 3],
        vec![1u32, 5, 6, 2],
        vec![8u32, 9, 10, 11],
        vec![12u32, 13, 14, 15],
        vec![11u32, 10, 14, 15],
        vec![8u32, 9, 13, 12],
        vec![8u32, 12, 15, 11],
        vec![9u32, 13, 14, 10],
        vec![8u32, 9, 1, 0],
        vec![12u32, 13, 5, 4],
        vec![12u32, 8, 0, 4],
        vec![9u32, 13, 5, 1],
        vec![11u32, 10, 2, 3],
        vec![15u32, 14, 6, 7],
        vec![15u32, 11, 3, 7],
        vec![14u32, 10, 2, 6],
        vec![11u32, 8, 0, 3],
        vec![15u32, 12, 4, 7],
        vec![10u32, 9, 1, 2],
        vec![14u32, 13, 5, 6],
    ];
    assert(table_view(table@) =~= hyperrect_faces());
    let m = mesh_from_table(16, table);
    assert(ids_below(hyperrect_faces(), 16));
    m
}

/// The faces of the 24-cell: the outer and inner octahedra, the middle triangles, the triangles joining the middle vertices to the inner and outer vertices, and those joining each middle square to its inner and outer vertex.
pub open spec fn twentyfourcell_faces() -> Seq<Seq<u32>> {
    seq![
        seq![0u32, 1, 2],
        seq![0u32, 2, 4],
        seq![0u32, 4, 5],
        seq![0u32, 5, 1],
        seq![3u32, 1, 2],
        seq![3u32, 2, 4],
        seq![3u32, 4, 5],
        seq![3u32, 5, 1],
        seq![18u32, 19, 20],
        seq![18u32, 20, 22],
        seq![18u32, 22, 23],
        seq![18u32, 23, 19],
        seq![21u32, 19, 20],
        seq![21u32, 20, 22],
        seq![21u32, 22, 23],
        seq![21u32, 23, 19],
        seq![11u32, 13, 12],
        seq![12u32, 7, 17],
        seq![17u32, 16, 9],
        seq![9u32, 10, 11],
        seq![14u32, 13, 6],
        seq![6u32, 7, 8],
        seq![8u32, 16, 15],
        seq![15u32, 10, 14],
        seq![6u32, 1, 0],
        seq![7u32, 0, 2],
        seq![8u32, 2, 1],
        seq![9u32, 4, 3],
        seq![10u32, 3, 5],
        seq![11u32, 5, 4],
        seq![12u32, 4, 0],
        seq![13u32, 0, 5],
        seq![14u32, 5, 1],
        seq![15u32, 1, 3],
        seq![16u32, 3, 2],
        seq![17u32, 2, 4],
        seq![6u32, 19, 18],
        seq![7u32, 18, 20],
        seq![8u32, 20, 19],
        seq![9u32, 22, 21],
        seq![10u32, 21, 23],
        seq![11u32, 23, 22],
        seq![12u32, 22, 18],
        seq![13u32, 18, 23],
        seq![14u32, 23, 19],
        seq![15u32, 19, 21],
        seq![16u32, 21, 20],
        seq![17u32, 20, 22],
        seq![9u32, 10, 3],
        seq![10u32, 15, 3],
        seq![15u32, 16, 3],
        seq![16u32, 9, 3],
        seq![9u32, 10, 21],
        seq![10u32, 15, 21],
        seq![15u32, 16, 21],
        seq![16u32, 9, 21],
        seq![6u32, 7, 0],
        seq![7u32, 12, 0],
        seq![12u32, 13, 0],
        seq![13u32, 6, 0],
        seq![6u32, 7, 18],
        seq![7u32, 12, 18],
        seq![12u32, 13, 18],
        seq![13u32, 6, 18],
        seq![9u32, 17, 4],
        seq![17u32, 12, 4],
        seq![12u32, 11, 4],
        seq![11u32, 9, 4],
        seq![9u32, 17, 22],
        seq![17u32, 12, 22],
        seq![12u32, 11, 22],
        seq![11u32, 9, 22],
        seq![15u32, 8, 1],
        seq![8u32, 6, 1],
        seq![6u32, 14, 1],
        seq![14u32, 15, 1],
        seq![15u32, 8, 19],
        seq![8u32, 6, 19],
        seq![6u32, 14, 19],
        seq![14u32, 15, 19],
        seq![10u32, 14, 5],
        seq![14u32, 13, 5],
        seq![13u32, 11, 5],
        seq![11u32, 10, 5],
        seq![10u32, 14, 23],
        seq![14u32, 13, 23],
        seq![13u32, 11, 23],
        seq![11u32, 10, 23],
        seq![8u32, 7, 2],
        seq![7u32, 17, 2],
        seq![17u32, 16, 2],
        seq![16u32, 8, 2],
        seq![8u32, 7, 20],
        seq![7u32, 17, 20],
        seq![17u32, 16, 20],
        seq![16u32, 8, 20],
    ]
}

/// The 24-cell: outer vertices 0–5, middle vertices 6–17, inner vertices 18–23; 96 triangular faces.
pub fn twentyfourcell() -> (m: Mesh)
    ensures
        m.vertex_count == 24,
        m.faces() == twentyfourcell_faces(),
        m.faces().len() == 96,
        forall|i: int| 0 <= i < m.faces().len() ==> (#[trigger] m.faces()[i]).len() == 3,
        m.tris_built(),
        m.wf(),
{
    let table = vec![
        vec![0u32, 1, 2],
        vec![0u32, 2, 4],
        vec![0u32, 4, 5],
        vec![0u32, 5, 1],
        vec![3u32, 1, 2],
        vec![3u32, 2, 4],
        vec![3u32, 4, 5],
        vec![3u32, 5, 1],
        vec![18u32, 19, 20],
        vec![18u32, 20, 22],
        vec![18u32, 22, 23],
        vec![18u32, 23, 19],
        vec![21u32, 19, 20],
        vec![21u32, 20, 22],
        vec![21u32, 22, 23],
        vec![21u32, 23, 19],
        vec![11u32, 13, 12],
        vec![12u32, 7, 17],
        vec![17u32, 16, 9],
        vec![9u32, 10, 11],
        vec![14u32, 13, 6],
        vec![6u32, 7, 8],
        vec![8u32, 16, 15],
        vec![15u32, 10, 14],
        vec![6u32, 1, 0],
        vec![7u32, 0, 2],
        vec![8u32, 2, 1],
        vec![9u32, 4, 3],
        vec![10u32, 3, 5],
        vec![11u32, 5, 4],
        vec![12u32, 4, 0],
        vec![13u32, 0, 5],
        vec![14u32, 5, 1],
        vec![15u32, 1, 3],
        vec![16u32, 3, 2],
        vec![17u32, 2, 4],
        vec![6u32, 19, 18],
        vec![7u32, 18, 20],
        vec![8u32, 20, 19],
        vec![9u32, 22, 21],
        vec![10u32, 21, 23],
        vec![11u32, 23, 22],
        vec![12u32, 22, 18],
        vec![13u32, 18, 23],
        vec![14u32, 23, 19],
        vec![15u32, 19, 21],
        vec![16u32, 21, 20],
        vec![17u32, 20, 22],
        vec![9u32, 10, 3],
        vec![10u32, 15, 3],
        vec![15u32, 16, 3],
        vec![16u32, 9, 3],
        vec![9u32, 10, 21],
        vec![10u32, 15, 21],
        vec![15u32, 16, 21],
        vec![16u32, 9, 21],
        vec![6u32, 7, 0],
        vec![7u32, 12, 0],
        vec![12u32, 13, 0],
        vec![13u32, 6, 0],
        vec![6u32, 7, 18],
        vec![7u32, 12, 18],
        vec![12u32, 13, 18],
        vec![13u32, 6, 18],
        vec![9u32, 17, 4],
        vec![17u32, 12, 4],
        vec![12u32, 11, 4],
        vec![11u32, 9, 4],
        vec![9u32, 17, 22],
        vec![17u32, 12, 22],
        vec![12u32, 11, 22],
        vec![11u32, 9, 22],
        vec![15u32, 8, 1],
        vec![8u32, 6, 1],
        vec![6u32, 14, 1],
        vec![14u32, 15, 1],
        vec![15u32, 8, 19],
        vec![8u32, 6, 19],
        vec![6u32, 14, 19],
        vec![14u32, 15, 19],
        vec![10u32, 14, 5],
        vec![14u32, 13, 5],
        vec![13u32, 11, 5],
        vec![11u32, 10, 5],
        vec![10u32, 14, 23],
        vec![14u32, 13, 23],
        vec![13u32, 11, 23],
        vec![11u32, 10, 23],
        vec![8u32, 7, 2],
        vec![7u32, 17, 2],
        vec![17u32, 16, 2],
        vec![16u32, 8, 2],
        vec![8u32, 7, 20],
        vec![7u32, 17, 20],
        vec![17u32, 16, 20],
        vec![16u32, 8, 20],
    ];
    assert(table_view(table@) =~= twentyfourcell_faces());
    let m = mesh_from_table(24, table);
    assert(ids_below(twentyfourcell_faces(), 24));
    m
}


/// The id of the vertex at row `i`, column `j` of a `res` × `res` grid.
pub open spec fn grid_id(res: int, i: int, j: int) -> int {
    i * res + j
}

/// Triangle `k` (0 or 1) of grid square `(i, j)` of a terrain: the square
/// `(i, j)`, `(i, j + 1)`, `(i + 1, j + 1)`, `(i + 1, j)` split along its
/// diagonal from `(i, j)` to `(i + 1, j + 1)`.
pub open spec fn terrain_triangle(res: int, i: int, j: int, k: int) -> Seq<u32> {
    if k == 0 {
        ids(seq![grid_id(res, i, j), grid_id(res, i, j + 1), grid_id(res, i + 1, j + 1)])
    } else {
        ids(seq![grid_id(res, i, j), grid_id(res, i + 1, j + 1), grid_id(res, i + 1, j)])
    }
}

/// The faces of a terrain of `res` × `res` vertices: two triangles per grid
/// square, squares in row-major order (faces `2 t` and `2 t + 1` belong to
/// square `t`).
pub open spec fn terrain_faces(res: int) -> Seq<Seq<u32>> {
    Seq::new(
        (2 * (res - 1) * (res - 1)) as nat,
        |t: int| terrain_triangle(res, (t / 2) / (res - 1), (t / 2) % (res - 1), t % 2),
    )
}

/// The ids that square `(i, j)` of a `res` × `res` grid and its neighbours
/// reach stay in the grid.
proof fn lemma_cell_ids(res: int, i: int, j: int)
    requires
        2 <= res,
        0 <= i <= res - 2,
        0 <= j <= res - 2,
    ensures
        0 <= i * res,
        i * res + res <= (res - 1) * res,
        i * res + j + res + 1 < res * res,
        i >= 1 ==> i * res >= res,
        (i + 1) * res == i * res + res,
        (i - 1) * res == i * res - res,
{
    assert(i >= 1 ==> i * res >= res) by (nonlinear_arith)
        requires
            0 <= res,
    ;
    assert(0 <= i * res) by (nonlinear_arith)
        requires
            0 <= i,
            0 <= res,
    ;
    assert(i * res + res <= (res - 1) * res) by (nonlinear_arith)
        requires
            i <= res - 2,
            0 <= res,
    ;
    assert((res - 1) * res + res == res * res) by (nonlinear_arith);
    assert((i + 1) * res == i * res + res) by (nonlinear_arith);
    assert((i - 1) * res == i * res - res) by (nonlinear_arith);
}

/// Positions `2 q` and `2 q + 1` of the faces are square `q`.
proof fn lemma_square_of_face(q: int, w: int, i: int, j: int)
    requires
        1 <= w,
        0 <= j < w,
        0 <= i,
        q == i * w + j,
    ensures
        (2 * q) / 2 == q,
        (2 * q) % 2 == 0,
        (2 * q + 1) / 2 == q,
        (2 * q + 1) % 2 == 1,
        q / w == i,
        q % w == j,
{
    lemma_fundamental_div_mod_converse(2 * q, 2, q, 0);
    lemma_fundamental_div_mod_converse(2 * q + 1, 2, q, 1);
    lemma_fundamental_div_mod_converse(q, w, i, j);
}

/// A terrain of `res` × `res` grid vertices (vertex `i * res + j` at row `i`,
/// column `j`) whose faces are triangles, two per grid square.  A terrain
/// has at least one vertex, and its face vertex buffer must be addressable
/// by `u32`.
pub fn terrain(res: u32) -> (m: Mesh)
    requires
        1 <= res,
        6 * (res - 1) * (res - 1) <= u32::MAX,
    ensures
        m.vertex_count == res * res,
        m.faces() == terrain_faces(res as int),
        m.faces().len() == 2 * (res - 1) * (res - 1),
        forall|t: int| 0 <= t < m.faces().len() ==> (#[trigger] m.faces()[t]).len() == 3,
        m.tris_built(),
        m.wf(),
{
    let ghost r = res as int;
    let ghost w = r - 1;
    proof {
        assert(r * r <= u32::MAX) by (nonlinear_arith)
            requires
                1 <= r,
                6 * (r - 1) * (r - 1) <= u32::MAX,
        ;
    }
    let mut faces: Vec<IndexArray> = Vec::new();
    let mut active_ind: u32 = 0;
    let mut i: u32 = 0;
    while i < res - 1
        invariant
            r == res,
            w == r - 1,
            1 <= res,
            r * r <= u32::MAX,
            0 <= i <= w,
            active_ind == i * r,
            faces_view(faces@) =~= Seq::new(
                (2 * (i * w)) as nat,
                |t: int| terrain_triangle(r, (t / 2) / w, (t / 2) % w, t % 2),
            ),
            ids_below(faces_view(faces@), r * r),
        decreases w - i,
    {
        let mut j: u32 = 0;
        while j < res - 1
            invariant
                r == res,
                w == r - 1,
                2 <= res,
                r * r <= u32::MAX,
                0 <= i < w,
                0 <= j <= w,
                active_ind == i * r,
                faces_view(faces@) =~= Seq::new(
                    (2 * (i * w + j)) as nat,
                    |t: int| terrain_triangle(r, (t / 2) / w, (t / 2) % w, t % 2),
                ),
                ids_below(faces_view(faces@), r * r),
            decreases w - j,
        {
            proof {
                lemma_cell_ids(r, i as int, j as int);
                lemma_square_of_face(i * w + j, w, i as int, j as int);
            }
            let c = active_ind + j;
            // Two face triangles per grid square, split along one diagonal.
            let t0 = IndexArray::new(vec![c, c + 1, c + res + 1]);
            let t1 = IndexArray::new(vec![c, c + res + 1, c + res]);
            let ghost before = faces_view(faces@);
            faces.push(t0);
            faces.push(t1);
            proof {
                let q = i * w + j;
                assert(t0@ =~= terrain_triangle(r, (2 * q) / 2 / w, (2 * q) / 2 % w, (2 * q) % 2));
                assert(t1@ =~= terrain_triangle(
                    r,
                    (2 * q + 1) / 2 / w,
                    (2 * q + 1) / 2 % w,
                    (2 * q + 1) % 2,
                ));
                assert(faces_view(faces@) =~= before.push(t0@).push(t1@));
                assert(2 * (i * w + (j + 1)) == 2 * q + 2);
            }
            j = j + 1;
        }
        proof {
            assert(i * w + w == (i + 1) * w) by (nonlinear_arith);
            assert(i * r + r == (i + 1) * r) by (nonlinear_arith);
            lemma_cell_ids(r, i as int, 0);
        }
        active_ind = active_ind + res;
        i = i + 1;
    }
    proof {
        assert(6 * (w * w) <= u32::MAX && 2 * (w * w) == 2 * (r - 1) * (r - 1)) by (nonlinear_arith)
            requires
                w == r - 1,
                6 * (r - 1) * (r - 1) <= u32::MAX,
        ;
        let fs = faces_view(faces@);
        assert forall|t: int| 0 <= t < fs.len() implies (#[trigger] fs[t]).len() == 3 by {}
        lemma_face_vertex_total_uniform(fs, 3);
    }
    Mesh::new(res * res, faces)
}

/// A grid position is on the `res` × `res` grid.
pub open spec fn on_grid(res: int, p: (int, int)) -> bool {
    0 <= p.0 < res && 0 <= p.1 < res
}

/// The two edge pairs of one neighbouring face of a vertex (`p`, `q`, `r`
/// its other corners, in clockwise order), when that face lies on the grid.
pub open spec fn quadrant_pairs(res: int, p: (int, int), q: (int, int), r: (int, int)) -> Seq<(int, int)> {
    if on_grid(res, p) && on_grid(res, q) && on_grid(res, r) {
        seq![
            (grid_id(res, p.0, p.1), grid_id(res, q.0, q.1)),
            (grid_id(res, q.0, q.1), grid_id(res, r.0, r.1)),
        ]
    } else {
        seq![]
    }
}

/// The pairs of neighbouring vertices around vertex `(i, j)` of a terrain
/// grid whose cross products (of the edges from `(i, j)`) are averaged into
/// the normal at that vertex: for each of the four grid squares around the
/// vertex that lies on the grid, going round clockwise from north
/// (`(i, j + 1)`), two pairs.
pub open spec fn cell_edge_pairs(res: int, i: int, j: int) -> Seq<(int, int)> {
    let n = (i, j + 1);
    let ne = (i + 1, j + 1);
    let e = (i + 1, j);
    let se = (i + 1, j - 1);
    let s = (i, j - 1);
    let sw = (i - 1, j - 1);
    let w = (i - 1, j);
    let nw = (i - 1, j + 1);
    quadrant_pairs(res, n, ne, e) + quadrant_pairs(res, e, se, s) + quadrant_pairs(res, s, sw, w)
        + quadrant_pairs(res, w, nw, n)
}

/// The `u32` pairs equal the integer pairs.
pub open spec fn pairs_match(p: Seq<(u32, u32)>, q: Seq<(int, int)>) -> bool {
    &&& p.len() == q.len()
    &&& forall|k: int| 0 <= k < p.len() ==> (#[trigger] p[k]).0 == q[k].0 && p[k].1 == q[k].1
}

fn cell_edges(res: u32, i: u32, j: u32) -> (pairs: Vec<(u32, u32)>)
    requires
        2 <= res,
        res * res <= u32::MAX,
        i <= res - 2,
        j <= res - 2,
    ensures
        pairs_match(pairs@, cell_edge_pairs(res as int, i as int, j as int)),
        forall|k: int|
            0 <= k < pairs@.len() ==> (#[trigger] pairs@[k]).0 < res * res && pairs@[k].1 < res
                * res,
{
    proof {
        lemma_cell_ids(res as int, i as int, j as int);
    }
    let c = i * res + j;
    let mut pairs: Vec<(u32, u32)> = Vec::new();
    // North-east, south-east, south-west and north-west of the vertex, each
    // when its corners lie on the grid.
    if i + 1 < res && j + 1 < res {
        pairs.push((c + 1, c + res + 1));
        pairs.push((c + res + 1, c + res));
    }
    if i + 1 < res && j >= 1 {
        pairs.push((c + res, c + res - 1));
        pairs.push((c + res - 1, c - 1));
    }
    if i >= 1 && j >= 1 {
        pairs.push((c - 1, c - res - 1));
        pairs.push((c - res - 1, c - res));
    }
    if i >= 1 && j + 1 < res {
        pairs.push((c - res, c - res + 1));
        pairs.push((c - res + 1, c + 1));
    }
    proof {
        let q = cell_edge_pairs(res as int, i as int, j as int);
        assert(pairs@.len() == q.len());
        assert forall|k: int| 0 <= k < pairs@.len() implies (#[trigger] pairs@[k]).0 == q[k].0
            && pairs@[k].1 == q[k].1 by {
        }
    }
    pairs
}

/// For each grid square `t` of `terrain(res)` (faces `2 t` and `2 t + 1`),
/// in row-major order, the vertex pairs whose edge cross products make the
/// normal at the square's first vertex (see `cell_edge_pairs`); the edges
/// run from that vertex, which is the first vertex of both faces.
pub fn terrain_edge_pairs(res: u32) -> (edges: Vec<Vec<(u32, u32)>>)
    requires
        1 <= res,
        res * res <= u32::MAX,
    ensures
        edges@.len() == (res - 1) * (res - 1),
        2 * edges@.len() == terrain_faces(res as int).len(),
        forall|t: int|
            0 <= t < edges@.len() ==> pairs_match(
                #[trigger] edges@[t]@,
                cell_edge_pairs(res as int, t / (res - 1), t % (res - 1)),
            ),
        forall|t: int, k: int|
            0 <= t < edges@.len() && 0 <= k < edges@[t]@.len() ==> (#[trigger] edges@[t]@[k]).0
                < res * res && edges@[t]@[k].1 < res * res,
{
    let ghost r = res as int;
    let ghost w = r - 1;
    proof {
        assert(r * r <= u32::MAX) by (nonlinear_arith)
            requires
                1 <= r,
                r * r <= u32::MAX,
        ;
    }
    let mut edges: Vec<Vec<(u32, u32)>> = Vec::new();
    let mut i: u32 = 0;
    while i < res - 1
        invariant
            r == res,
            w == r - 1,
            1 <= res,
            r * r <= u32::MAX,
            0 <= i <= w,
            edges@.len() == i * w,
            forall|t: int|
                0 <= t < edges@.len() ==> pairs_match(
                    #[trigger] edges@[t]@,
                    cell_edge_pairs(r, t / w, t % w),
                ),
            forall|t: int, k: int|
                0 <= t < edges@.len() && 0 <= k < edges@[t]@.len() ==> (#[trigger] edges@[t]@[k]).0
                    < r * r && edges@[t]@[k].1 < r * r,
        decreases w - i,
    {
        let mut j: u32 = 0;
        while j < res - 1
            invariant
                r == res,
                w == r - 1,
                2 <= res,
                r * r <= u32::MAX,
                0 <= i < w,
                0 <= j <= w,
                edges@.len() == i * w + j,
                forall|t: int|
                    0 <= t < edges@.len() ==> pairs_match(
                        #[trigger] edges@[t]@,
                        cell_edge_pairs(r, t / w, t % w),
                    ),
                forall|t: int, k: int|
                    0 <= t < edges@.len() && 0 <= k < edges@[t]@.len() ==> (#[trigger] edges@[t]@[k]).0
                        < r * r && edges@[t]@[k].1 < r * r,
            decreases w - j,
        {
            let pairs = cell_edges(res, i, j);
            proof {
                let t = i * w + j;
                lemma_fundamental_div_mod_converse(t, w, i as int, j as int);
            }
            edges.push(pairs);
            j = j + 1;
        }
        proof {
            assert(i * w + w == (i + 1) * w) by (nonlinear_arith);
        }
        i = i + 1;
    }
    proof {
        assert(w * w == (r - 1) * (r - 1));
        assert(2 * ((r - 1) * (r - 1)) == 2 * (r - 1) * (r - 1)) by (nonlinear_arith);
    }
    edges
}


/// Integer vertex ids as `u32` ids.
pub open spec fn ids(s: Seq<int>) -> Seq<u32> {
    s.map_values(|x: int| x as u32)
}

/// How the normal of a face is obtained from the vertex positions `v`.
pub enum NormalSource {
    /// `(v[a] - v[b]) × (v[c] - v[a])`, in the first three coordinates.
    Cross(u32, u32, u32),
    /// The zero normal.
    Zero,
}

/// Number of vertices of each sphere of a spherinder of resolution `res`:
/// `res` longitudes of `res / 2` latitudes, plus a top and a bottom vertex.
pub open spec fn sphere_vertex_count(res: int) -> int {
    res * (res / 2) + 2
}

/// The longitude after `i`: the next one, and after the last longitude
/// the first again.
pub open spec fn next_lon(res: int, i: int) -> int {
    if i == res - 1 {
        0
    } else {
        i + 1
    }
}

/// The id of latitude `j` on longitude `i` of the sphere whose ids start at
/// `s`.
pub open spec fn sph_id(res: int, s: int, i: int, j: int) -> int {
    s + i * (res / 2) + j
}

/// The quadrilateral at longitude `i`, latitude `j` of the sphere whose ids
/// start at `s`: the point, one latitude up, one latitude up on the next
/// longitude, and the next longitude.
pub open spec fn sph_quad(res: int, i: int, j: int, s: int) -> Seq<u32> {
    let n = next_lon(res, i);
    ids(seq![sph_id(res, s, i, j), sph_id(res, s, i, j + 1), sph_id(res, s, n, j + 1), sph_id(res, s, n, j)])
}

/// The bottom cap triangle at longitude `i` of the sphere whose ids start
/// at `s`: the lowest latitude on this and on the next longitude, and the
/// sphere's bottom vertex.
pub open spec fn sph_cap(res: int, i: int, s: int) -> Seq<u32> {
    ids(seq![sph_id(res, s, i, 0), sph_id(res, s, next_lon(res, i), 0), s + sphere_vertex_count(res) - 1])
}

/// The faces made at longitude `i`, latitude `j`: a quadrilateral on each
/// sphere, at the lowest latitude a bottom cap on each sphere, and two
/// quadrilaterals joining the spheres (along the latitude, and along the
/// latitude on the next longitude).
pub open spec fn sph_block(res: int, i: int, j: int) -> Seq<Seq<u32>> {
    let svc = sphere_vertex_count(res);
    let n = next_lon(res, i);
    let caps = if j == 0 {
        seq![sph_cap(res, i, 0), sph_cap(res, i, svc)]
    } else {
        seq![]
    };
    seq![sph_quad(res, i, j, 0), sph_quad(res, i, j, svc)] + caps + seq![
        ids(seq![sph_id(res, 0, i, j), sph_id(res, 0, i, j + 1), sph_id(res, svc, i, j), sph_id(res, svc, i, j + 1)]),
        ids(seq![sph_id(res, 0, n, j + 1), sph_id(res, 0, n, j), sph_id(res, svc, n, j + 1), sph_id(res, svc, n, j)]),
    ]
}

/// How the normals of the faces of `sph_block(res, i, j)` are obtained, face
/// by face: the sphere faces from their own vertices, the joining faces zero.
pub open spec fn sph_normal_block(res: int, i: int, j: int) -> Seq<NormalSource> {
    let q0 = sph_quad(res, i, j, 0);
    let q1 = sph_quad(res, i, j, sphere_vertex_count(res));
    let c0 = sph_cap(res, i, 0);
    let c1 = sph_cap(res, i, sphere_vertex_count(res));
    let caps = if j == 0 {
        seq![NormalSource::Cross(c0[0], c0[1], c0[2]), NormalSource::Cross(c1[0], c1[1], c1[2])]
    } else {
        seq![]
    };
    seq![NormalSource::Cross(q0[0], q0[3], q0[2]), NormalSource::Cross(q1[0], q1[3], q1[2])] + caps
        + seq![NormalSource::Zero, NormalSource::Zero]
}

/// The faces of longitude `i`, latitudes `0 .. n`.
pub open spec fn sph_row(res: int, i: int, n: int) -> Seq<Seq<u32>>
    decreases n,
{
    if n <= 0 {
        seq![]
    } else {
        sph_row(res, i, n - 1) + sph_block(res, i, n - 1)
    }
}

/// The normal sources of longitude `i`, latitudes `0 .. n`.
pub open spec fn sph_normal_row(res: int, i: int, n: int) -> Seq<NormalSource>
    decreases n,
{
    if n <= 0 {
        seq![]
    } else {
        sph_normal_row(res, i, n - 1) + sph_normal_block(res, i, n - 1)
    }
}

/// The faces of longitudes `0 .. n`.
pub open spec fn sph_rows(res: int, n: int) -> Seq<Seq<u32>>
    decreases n,
{
    if n <= 0 {
        seq![]
    } else {
        sph_rows(res, n - 1) + sph_row(res, n - 1, res / 2 - 1)
    }
}

/// The normal sources of longitudes `0 .. n`.
pub open spec fn sph_normal_rows(res: int, n: int) -> Seq<NormalSource>
    decreases n,
{
    if n <= 0 {
        seq![]
    } else {
        sph_normal_rows(res, n - 1) + sph_normal_row(res, n - 1, res / 2 - 1)
    }
}

/// The faces of a spherinder of resolution `res`.
pub open spec fn spherinder_faces(res: int) -> Seq<Seq<u32>> {
    sph_rows(res, res)
}

/// The number of face vertices of a spherinder of resolution `res`: per
/// longitude, 16 for each latitude step and 6 for the caps.
pub open spec fn spherinder_face_vertex_total(res: int) -> int {
    if res / 2 >= 2 {
        res * (16 * (res / 2 - 1) + 6)
    } else {
        0
    }
}

/// Bounds on the ids of the faces made at longitude `i`, latitude `j`, and
/// the wrap of the last longitude to the first.
proof fn lemma_sph_ids(res: int, i: int, j: int)
    requires
        res % 2 == 0,
        2 <= res,
        0 <= i < res,
        0 <= j <= res / 2 - 2,
    ensures
        0 <= i * (res / 2),
        i * (res / 2) + res / 2 <= res * (res / 2),
        0 <= next_lon(res, i) * (res / 2),
        next_lon(res, i) * (res / 2) + res / 2 <= res * (res / 2),
        i * (res / 2) + res / 2 - (if i == res - 1 {
            res * (res / 2)
        } else {
            0
        }) == next_lon(res, i) * (res / 2),
{
    let h = res / 2;
    let n = next_lon(res, i);
    assert(res == 2 * h);
    assert(0 <= i * h && 0 <= n * h) by (nonlinear_arith)
        requires
            0 <= i,
            0 <= n,
            0 <= h,
    ;
    assert(i * h + h <= res * h) by (nonlinear_arith)
        requires
            i < res,
            0 <= h,
    ;
    assert(n * h + h <= res * h) by (nonlinear_arith)
        requires
            n < res,
            0 <= h,
    ;
    assert(i * h + h == (i + 1) * h) by (nonlinear_arith);
    if i == res - 1 {
        assert(i * h + h == res * h) by (nonlinear_arith)
            requires
                i == res - 1,
        ;
    }
}

/// Appends a face, with its normal source.
fn push_face(
    faces: &mut Vec<IndexArray>,
    normals: &mut Vec<NormalSource>,
    face: Vec<u32>,
    normal: NormalSource,
)
    ensures
        faces_view(final(faces)@) == faces_view(old(faces)@).push(face@),
        face_vertex_total(faces_view(final(faces)@)) == face_vertex_total(faces_view(old(faces)@))
            + face@.len(),
        final(normals)@ == old(normals)@.push(normal),
        final(faces)@.len() == old(faces)@.len() + 1,
{
    let ghost before = faces_view(faces@);
    let f = IndexArray::new(face);
    faces.push(f);
    normals.push(normal);
    proof {
        assert(faces_view(faces@) =~= before.push(f@));
        lemma_face_vertex_total_push(before, f@);
    }
}

/// Appends the faces (and normal sources) of `sph_block(res, i, j)`.
fn push_sph_block(
    faces: &mut Vec<IndexArray>,
    normals: &mut Vec<NormalSource>,
    res: u32,
    i: u32,
    j: u32,
    lon_i: u32,
    lon_adjuster: u32,
)
    requires
        res % 2 == 0,
        2 <= res,
        2 * sphere_vertex_count(res as int) + res / 2 <= u32::MAX,
        0 <= i < res,
        0 <= j <= res / 2 - 2,
        lon_i == i * (res / 2),
        lon_adjuster == (if i == res - 1 {
            res * (res / 2)
        } else {
            0
        }),
    ensures
        faces_view(final(faces)@) == faces_view(old(faces)@) + sph_block(res as int, i as int, j as int),
        final(normals)@ == old(normals)@ + sph_normal_block(res as int, i as int, j as int),
        final(normals)@.len() - old(normals)@.len() == final(faces)@.len() - old(faces)@.len(),
        face_vertex_total(faces_view(final(faces)@)) == face_vertex_total(faces_view(old(faces)@)) + (
        if j == 0 {
            22int
        } else {
            16int
        }),
        forall|x: int, y: int|
            0 <= x < sph_block(res as int, i as int, j as int).len() && 0 <= y < sph_block(
                res as int,
                i as int,
                j as int,
            )[x].len() ==> #[trigger] sph_block(res as int, i as int, j as int)[x][y] < 2
                * sphere_vertex_count(res as int),
        drawable(sph_block(res as int, i as int, j as int)),
{
    let ghost r = res as int;
    proof {
        lemma_sph_ids(r, i as int, j as int);
    }
    let h = res / 2;
    let svc = res * h + 2;
    let ghost before = faces_view(faces@);
    let ghost nbefore = normals@;
    let ghost blk = sph_block(r, i as int, j as int);
    let ghost nblk = sph_normal_block(r, i as int, j as int);
    let a = lon_i + j;
    // The next longitude (the first after the last), and one latitude up on it.
    let b = a + h - lon_adjuster;
    let d = a + h + 1 - lon_adjuster;
    let sa = svc + a;
    let sb = svc + a + h - lon_adjuster;
    let sd = svc + a + h + 1 - lon_adjuster;
    let bottom = svc - 1;
    let sbottom = svc + svc - 1;
    // One quadrilateral on each sphere.
    let q0 = vec![a, a + 1, d, b];
    assert(q0@ =~= sph_quad(r, i as int, j as int, 0));
    push_face(faces, normals, q0, NormalSource::Cross(a, b, d));
    let q1 = vec![sa, sa + 1, sd, sb];
    assert(q1@ =~= sph_quad(r, i as int, j as int, svc as int));
    push_face(faces, normals, q1, NormalSource::Cross(sa, sb, sd));
    // The bottom caps.
    if j == 0 {
        let c0 = vec![a, b, bottom];
        assert(c0@ =~= sph_cap(r, i as int, 0));
        push_face(faces, normals, c0, NormalSource::Cross(a, b, bottom));
        let c1 = vec![sa, sb, sbottom];
        assert(c1@ =~= sph_cap(r, i as int, svc as int));
        push_face(faces, normals, c1, NormalSource::Cross(sa, sb, sbottom));
    }
    // The faces joining the two spheres.
    let k0 = vec![a, a + 1, sa, sa + 1];
    assert(k0@ =~= blk[blk.len() - 2]);
    push_face(faces, normals, k0, NormalSource::Zero);
    let k1 = vec![d, b, sd, sb];
    assert(k1@ =~= blk[blk.len() - 1]);
    push_face(faces, normals, k1, NormalSource::Zero);
    assert(faces_view(faces@) =~= before + blk);
    assert(normals@ =~= nbefore + nblk);
}

/// A spherinder: the four-dimensional analogue of a cylinder, two UV
/// spheres (ids `0 .. svc` and `svc .. 2 * svc`, `svc = res * (res / 2) + 2`)
/// joined along the fourth axis.  Each sphere has `res` longitudes of
/// `res / 2` latitudes (id `i * (res / 2) + j`), then its top and bottom
/// vertex.  Also returns, face by face, how each face's normal is obtained.
/// `res` must be even: longitudes are iterated twice as often as latitudes.
pub fn spherinder(res: u32) -> (result: (Mesh, Vec<NormalSource>))
    requires
        res % 2 == 0,
        2 * sphere_vertex_count(res as int) + res / 2 <= u32::MAX,
        spherinder_face_vertex_total(res as int) <= u32::MAX,
    ensures
        result.0.vertex_count == 2 * sphere_vertex_count(res as int),
        result.0.faces() == spherinder_faces(res as int),
        result.0.tris_built(),
        result.0.wf(),
        face_vertex_total(result.0.faces()) == spherinder_face_vertex_total(res as int),
        drawable(result.0.faces()),
        result.1@ == sph_normal_rows(res as int, res as int),
        result.1@.len() == result.0.faces().len(),
{
    let ghost r = res as int;
    let h = res / 2;
    let svc = res * h + 2;
    let ghost p: int = if h >= 2 {
        16 * (h - 1) + 6
    } else {
        0
    };
    let mut faces: Vec<IndexArray> = Vec::new();
    let mut normals: Vec<NormalSource> = Vec::new();
    let mut lon_i: u32 = 0;
    let mut i: u32 = 0;
    while i < res
        invariant
            r == res,
            r % 2 == 0,
            h == r / 2,
            svc == sphere_vertex_count(r),
            2 * svc + h <= u32::MAX,
            spherinder_face_vertex_total(r) <= u32::MAX,
            p == (if h >= 2 {
                16 * (h - 1) + 6
            } else {
                0
            }),
            0 <= i <= r,
            lon_i == i * h,
            faces_view(faces@) == sph_rows(r, i as int),
            normals@ == sph_normal_rows(r, i as int),
            normals@.len() == faces@.len(),
            face_vertex_total(faces_view(faces@)) == i * p,
            ids_below(faces_view(faces@), 2 * svc),
            drawable(faces_view(faces@)),
        decreases r - i,
    {
        let mut lon_adjuster: u32 = 0;
        proof {
            assert(2 <= r);
            assert(h * (r - 1) >= h && h * (r - 1) <= r * h) by (nonlinear_arith)
                requires
                    2 <= r,
                    0 <= h,
            ;
            assert(i * h + h <= r * h) by (nonlinear_arith)
                requires
                    i < r,
                    0 <= h,
            ;
            assert(i * p + p <= r * p) by (nonlinear_arith)
                requires
                    i < r,
                    0 <= p,
            ;
            assert(i * h + h == (i + 1) * h) by (nonlinear_arith);
            assert(i * p + p == (i + 1) * p) by (nonlinear_arith);
        }
        if i == res - 1 {
            lon_adjuster = h * res;
        }
        let mut j: u32 = 0;
        while j < h - 1
            invariant
                r == res,
                r % 2 == 0,
                2 <= r,
                h == r / 2,
                svc == sphere_vertex_count(r),
                2 * svc + h <= u32::MAX,
                spherinder_face_vertex_total(r) <= u32::MAX,
                p == (if h >= 2 {
                    16 * (h - 1) + 6
                } else {
                    0
                }),
                0 <= i < r,
                i * p + p <= r * p,
                lon_i == i * h,
                lon_adjuster == (if i == r - 1 {
                    r * h
                } else {
                    0
                }),
                0 <= j <= h - 1,
                faces_view(faces@) == sph_rows(r, i as int) + sph_row(r, i as int, j as int),
                normals@ == sph_normal_rows(r, i as int) + sph_normal_row(r, i as int, j as int),
                normals@.len() == faces@.len(),
                face_vertex_total(faces_view(faces@)) == i * p + (if j == 0 {
                    0
                } else {
                    16 * j + 6
                }),
                ids_below(faces_view(faces@), 2 * svc),
                drawable(faces_view(faces@)),
            decreases h - 1 - j,
        {
            let ghost before = faces_view(faces@);
            let ghost blk = sph_block(r, i as int, j as int);
            push_sph_block(&mut faces, &mut normals, res, i, j, lon_i, lon_adjuster);
            proof {
                assert(sph_rows(r, i as int) + sph_row(r, i as int, j + 1) =~= before + blk);
                assert(sph_normal_rows(r, i as int) + sph_normal_row(r, i as int, j + 1)
                    =~= sph_normal_rows(r, i as int) + sph_normal_row(r, i as int, j as int)
                    + sph_normal_block(r, i as int, j as int));
                assert forall|x: int, y: int|
                    0 <= x < faces_view(faces@).len() && 0 <= y < faces_view(faces@)[x].len()
                        implies #[trigger] faces_view(faces@)[x][y] < 2 * svc by {
                    if x >= before.len() {
                        assert(faces_view(faces@)[x] == blk[x - before.len()]);
                    } else {
                        assert(faces_view(faces@)[x] == before[x]);
                    }
                }
                assert forall|x: int| 0 <= x < faces_view(faces@).len() implies (
                #[trigger] faces_view(faces@)[x]).len() == 3 || faces_view(faces@)[x].len() == 4 by {
                    if x >= before.len() {
                        assert(faces_view(faces@)[x] == blk[x - before.len()]);
                    } else {
                        assert(faces_view(faces@)[x] == before[x]);
                    }
                }
            }
            j = j + 1;
        }
        proof {
            assert(sph_rows(r, i + 1) =~= sph_rows(r, i as int) + sph_row(r, i as int, h - 1));
            assert(sph_normal_rows(r, i + 1) =~= sph_normal_rows(r, i as int) + sph_normal_row(
                r,
                i as int,
                h - 1,
            ));
        }
        lon_i = lon_i + h;
        i = i + 1;
    }
    proof {
        assert(r * p == spherinder_face_vertex_total(r));
    }
    let mesh = Mesh::new(2 * svc, faces);
    (mesh, normals)
}

/// The vertex count of an arrow of resolution `res`: the spherinder's and
/// the 5-cell point's.
pub open spec fn arrow_vertex_count(res: int) -> int {
    2 * sphere_vertex_count(res) + 5
}

/// The faces of an arrow: the spherinder body's, then the 5-cell point's
/// with ids moved past the body's.
pub open spec fn arrow_faces(res: int) -> Seq<Seq<u32>> {
    spherinder_faces(res) + shift_faces(fivecell_faces(), 2 * sphere_vertex_count(res))
}

/// An arrow: a spherinder body with a 5-cell point appended.
pub fn arrow(res: u32) -> (m: Mesh)
    requires
        res % 2 == 0,
        2 * sphere_vertex_count(res as int) + res / 2 + 5 <= u32::MAX,
        spherinder_face_vertex_total(res as int) + 30 <= u32::MAX,
    ensures
        m.vertex_count == arrow_vertex_count(res as int),
        m.faces() == arrow_faces(res as int),
        m.tris_built(),
        m.wf(),
        drawable(m.faces()),
        face_vertex_total(m.faces()) == spherinder_face_vertex_total(res as int) + 30,
{
    let (body, _) = spherinder(res);
    let point = fivecell();
    let ghost b = body;
    let ghost pt = point;
    let meshes = vec![point];
    proof {
        let ms = meshes@;
        assert(ms.drop_last() =~= Seq::<Mesh>::empty());
        assert(ms.last() == pt);
        assert(vertex_count_sum(ms.drop_last()) == 0);
        assert(face_vertex_sum(ms.drop_last()) == 0);
        assert(vertex_count_sum(ms) == 5);
        assert(face_vertex_sum(ms) == face_vertex_total(fivecell_faces()));
        assert(face_vertex_total(fivecell_faces()) == 30) by {
            reveal_with_fuel(face_vertex_total, 11);
        }
        assert(forall|k: int| 0 <= k < ms.len() ==> (#[trigger] ms[k]) == pt);
        lemma_offsets_fit(b, ms);
        lemma_appended_faces(ms, b.vertex_count as int);
        lemma_drawable_concat(b.faces(), appended_faces(ms, b.vertex_count as int));
        lemma_face_vertex_total_concat(b.faces(), appended_faces(ms, b.vertex_count as int));
        lemma_shift_faces(fivecell_faces(), b.vertex_count as int);
        assert(appended_faces(ms.drop_last(), b.vertex_count as int) =~= Seq::<Seq<u32>>::empty());
        assert(appended_faces(ms, b.vertex_count as int) =~= shift_faces(
            fivecell_faces(),
            b.vertex_count as int,
        ));
    }
    combine_meshes(body, meshes)
}

/// The faces of the origin marker: four arrows, the second, third and
/// fourth with ids moved past the arrows before them.
pub open spec fn origin_faces(res: int) -> Seq<Seq<u32>> {
    let n = arrow_vertex_count(res);
    arrow_faces(res) + shift_faces(arrow_faces(res), n) + shift_faces(arrow_faces(res), 2 * n)
        + shift_faces(arrow_faces(res), 3 * n)
}

/// Appending three copies of a mesh to a fourth: offsets, faces and totals.
proof fn lemma_three_copies_appended(w: Mesh, ms: Seq<Mesh>)
    requires
        ms.len() == 3,
        forall|k: int|
            0 <= k < 3 ==> (#[trigger] ms[k]).faces() == w.faces() && ms[k].vertex_count
                == w.vertex_count && ms[k].wf(),
        w.wf(),
        drawable(w.faces()),
        4 * w.vertex_count <= u32::MAX,
        4 * face_vertex_total(w.faces()) <= u32::MAX,
    ensures
        offsets_fit(w, ms),
        vertex_count_sum(ms) == 3 * w.vertex_count,
        drawable(combined_faces(w, ms)),
        face_vertex_total(combined_faces(w, ms)) <= u32::MAX,
        combined_faces(w, ms) == w.faces() + shift_faces(w.faces(), w.vertex_count as int)
            + shift_faces(w.faces(), 2 * w.vertex_count) + shift_faces(
            w.faces(),
            3 * w.vertex_count,
        ),
{
    let n = w.vertex_count as int;
    let af = w.faces();
    let m1 = ms.take(1);
    let m2 = ms.take(2);
    assert(ms.drop_last() =~= m2);
    assert(m2.drop_last() =~= m1);
    assert(m1.drop_last() =~= Seq::<Mesh>::empty());
    assert(ms[0].vertex_count == n && ms[1].vertex_count == n && ms[2].vertex_count == n);
    assert(ms[0].faces() == af && ms[1].faces() == af && ms[2].faces() == af);
    assert(vertex_count_sum(Seq::<Mesh>::empty()) == 0);
    assert(vertex_count_sum(m1) == n);
    assert(vertex_count_sum(m2) == 2 * n);
    assert(vertex_count_sum(ms) == 3 * n);
    assert forall|k: int| 0 <= k < ms.len() implies drawable(#[trigger] ms[k].faces()) by {
        assert(ms[k].faces() == af);
    }
    assert forall|k: int| 0 <= k < ms.len() implies (#[trigger] ms[k]).wf() by {}
    lemma_offsets_fit(w, ms);
    lemma_appended_faces(ms, n);
    lemma_drawable_concat(af, appended_faces(ms, n));
    lemma_face_vertex_total_concat(af, appended_faces(ms, n));
    assert(face_vertex_sum(Seq::<Mesh>::empty()) == 0);
    assert(face_vertex_sum(m1) == face_vertex_total(af));
    assert(face_vertex_sum(m2) == 2 * face_vertex_total(af));
    assert(face_vertex_sum(ms) == 3 * face_vertex_total(af));
    assert(appended_faces(Seq::<Mesh>::empty(), n) =~= Seq::<Seq<u32>>::empty());
    assert(appended_faces(m1, n) =~= shift_faces(af, n));
    assert(appended_faces(m2, n) =~= shift_faces(af, n) + shift_faces(af, 2 * n));
    assert(appended_faces(ms, n) =~= shift_faces(af, n) + shift_faces(af, 2 * n) + shift_faces(
        af,
        3 * n,
    ));
    assert(combined_faces(w, ms) =~= af + shift_faces(af, n) + shift_faces(af, 2 * n) + shift_faces(
        af,
        3 * n,
    ));
}

/// The origin marker: four arrows, one along each axis (the caller rotates
/// the second, third and fourth), their vertex ids made unique by moving
/// those of arrow `k` by `k` arrows' vertex count.
pub fn origin(res: u32) -> (m: Mesh)
    requires
        res % 2 == 0,
        2 * sphere_vertex_count(res as int) + res / 2 + 5 <= u32::MAX,
        4 * arrow_vertex_count(res as int) <= u32::MAX,
        4 * (spherinder_face_vertex_total(res as int) + 30) <= u32::MAX,
    ensures
        m.vertex_count == 4 * arrow_vertex_count(res as int),
        m.faces() == origin_faces(res as int),
        m.tris_built(),
        m.wf(),
{
    let w = arrow(res);
    let x = arrow(res);
    let y = arrow(res);
    let z = arrow(res);
    let ghost tw = w;
    let ghost tx = x;
    let ghost ty = y;
    let ghost tz = z;
    let meshes = vec![x, y, z];
    proof {
        let ms = meshes@;
        assert(ms[0] == tx && ms[1] == ty && ms[2] == tz);
        assert forall|k: int|
            0 <= k < 3 implies (#[trigger] ms[k]).faces() == tw.faces() && ms[k].vertex_count
            == tw.vertex_count && ms[k].wf() by {
            if k == 0 {
                assert(ms[k] == tx);
            } else if k == 1 {
                assert(ms[k] == ty);
            } else {
                assert(ms[k] == tz);
            }
        }
        lemma_three_copies_appended(tw, ms);
    }
    combine_meshes(w, meshes)
}

/// A cell of a three-dimensional grid of shapes: its id and its grid
/// coordinates.
#[derive(Clone, Copy, Debug, PartialEq, Eq)]
pub struct GridCell {
    pub id: u32,
    pub i: u32,
    pub j: u32,
    pub k: u32,
}

/// Cell `t` of a `res`³ grid in loop order: id `t`, coordinates the base-`res`
/// digits of `t`.
pub open spec fn grid_cell_at(res: int, t: int, c: GridCell) -> bool {
    &&& c.id == t
    &&& c.i < res
    &&& c.j < res
    &&& c.k < res
    &&& t == res * res * c.i + res * c.j + c.k
}

/// The cells of an evenly spaced `res` × `res` × `res` grid of shapes, in
/// loop order (`i`, then `j`, then `k`), with id `res² i + res j + k`.  The
/// caller places cell `(i, j, k)`'s cube at the grid position and takes its
/// fourth coordinate from a map.  The id arithmetic is `u32`.
pub fn hypergrid(res: u32) -> (cells: Vec<GridCell>)
    requires
        res * res * res <= 0x1_0000_0000,
    ensures
        cells@.len() == res * res * res,
        forall|t: int| 0 <= t < cells@.len() ==> grid_cell_at(res as int, t, #[trigger] cells@[t]),
{
    let ghost r = res as int;
    let mut cells: Vec<GridCell> = Vec::new();
    let mut i: u32 = 0;
    while i < res
        invariant
            r == res,
            r * r * r <= 0x1_0000_0000,
            0 <= i <= r,
            cells@.len() == r * r * i,
            forall|t: int| 0 <= t < cells@.len() ==> grid_cell_at(r, t, #[trigger] cells@[t]),
        decreases r - i,
    {
        let mut j: u32 = 0;
        while j < res
            invariant
                r == res,
                r * r * r <= 0x1_0000_0000,
                0 <= i < r,
                0 <= j <= r,
                cells@.len() == r * r * i + r * j,
                forall|t: int| 0 <= t < cells@.len() ==> grid_cell_at(r, t, #[trigger] cells@[t]),
            decreases r - j,
        {
            let mut k: u32 = 0;
            while k < res
                invariant
                    r == res,
                    r * r * r <= 0x1_0000_0000,
                    0 <= i < r,
                    0 <= j < r,
                    0 <= k <= r,
                    cells@.len() == r * r * i + r * j + k,
                    forall|t: int|
                        0 <= t < cells@.len() ==> grid_cell_at(r, t, #[trigger] cells@[t]),
                decreases r - k,
            {
                proof {
                    lemma_grid_cell_bounds(r, i as int, j as int, k as int);
                }
                let id = res * res * i + res * j + k;
                cells.push(GridCell { id, i, j, k });
                k = k + 1;
            }
            proof {
                assert(r * j + r == r * (j + 1)) by (nonlinear_arith);
            }
            j = j + 1;
        }
        proof {
            assert(r * r * i + r * r == r * r * (i + 1)) by (nonlinear_arith);
        }
        i = i + 1;
    }
    cells
}

/// The id of cell `(i, j, k)` of a `res`³ grid fits, as do its partial sums.
proof fn lemma_grid_cell_bounds(r: int, i: int, j: int, k: int)
    requires
        r * r * r <= 0x1_0000_0000,
        0 <= i < r,
        0 <= j < r,
        0 <= k < r,
    ensures
        r * r * i + r * j + k < r * r * r,
        r * r <= u32::MAX,
        0 <= r * r * i,
        0 <= r * j,
        r * i <= r * r,
{
    assert(r * r * i + r * j + k < r * r * r) by (nonlinear_arith)
        requires
            0 <= i < r,
            0 <= j < r,
            0 <= k < r,
    ;
    if r >= 2 {
        assert(2 * (r * r) <= r * r * r) by (nonlinear_arith)
            requires
                2 <= r,
        ;
    } else {
        assert(r * r == 1) by (nonlinear_arith)
            requires
                r == 1,
        ;
    }
    assert(0 <= r * r * i && 0 <= r * j) by (nonlinear_arith)
        requires
            0 <= i,
            0 <= j,
            0 <= r,
    ;
    assert(r * i <= r * r) by (nonlinear_arith)
        requires
            0 <= i < r,
    ;
}

/// A cell of a four-dimensional grid of shapes: its id, its layer along the
/// fourth axis, and its cell within that layer's three-dimensional grid.
#[derive(Clone, Copy, Debug, PartialEq, Eq)]
pub struct GridCell4 {
    pub id: u32,
    pub layer: u32,
    pub cell: GridCell,
}

/// The cells of an evenly spaced four-dimensional grid: `res` layers along
/// the fourth axis, each a `hypergrid(res)`, numbered consecutively from 0
/// layer after layer.  Within a layer the cells follow the layer's grid
/// order.
pub fn grid_4d(res: u32) -> (cells: Vec<GridCell4>)
    requires
        res * res * res * res <= u32::MAX,
    ensures
        cells@.len() == res * res * res * res,
        forall|t: int|
            0 <= t < cells@.len() ==> (#[trigger] cells@[t]).id == t && cells@[t].layer == t / (
            res * res * res) && grid_cell_at(res as int, t % (res * res * res), cells@[t].cell),
{
    let ghost r = res as int;
    let ghost c = r * r * r;
    proof {
        assert(r * r * r <= 0x1_0000_0000) by (nonlinear_arith)
            requires
                r * r * r * r <= u32::MAX,
                0 <= r,
        ;
    }
    let mut cells: Vec<GridCell4> = Vec::new();
    let mut id: u32 = 0;
    let mut layer: u32 = 0;
    while layer < res
        invariant
            r == res,
            c == r * r * r,
            r * r * r * r <= u32::MAX,
            c <= 0x1_0000_0000,
            0 <= layer <= r,
            id == c * layer,
            cells@.len() == id,
            forall|t: int|
                0 <= t < cells@.len() ==> (#[trigger] cells@[t]).id == t && cells@[t].layer == t / c
                    && grid_cell_at(r, t % c, cells@[t].cell),
        decreases r - layer,
    {
        let subgrid = hypergrid(res);
        proof {
            assert(c * layer + c <= c * r) by (nonlinear_arith)
                requires
                    layer < r,
                    0 <= c,
            ;
            assert(c * r == r * r * r * r) by (nonlinear_arith)
                requires
                    c == r * r * r,
            ;
        }
        let mut n: usize = 0;
        while n < subgrid.len()
            invariant
                r == res,
                c == r * r * r,
                subgrid@.len() == c,
                forall|t: int| 0 <= t < c ==> grid_cell_at(r, t, #[trigger] subgrid@[t]),
                0 <= layer < r,
                c * layer + c <= u32::MAX,
                0 <= n <= c,
                id == c * layer + n,
                cells@.len() == id,
                forall|t: int|
                    0 <= t < cells@.len() ==> (#[trigger] cells@[t]).id == t && cells@[t].layer == t
                        / c && grid_cell_at(r, t % c, cells@[t].cell),
            decreases c - n,
        {
            proof {
                assert(c * layer == layer * c) by (nonlinear_arith);
                lemma_fundamental_div_mod_converse(layer * c + n, c, layer as int, n as int);
            }
            cells.push(GridCell4 { id, layer, cell: subgrid[n] });
            id = id + 1;
            n = n + 1;
        }
        proof {
            assert(c * layer + c == c * (layer + 1)) by (nonlinear_arith);
        }
        layer = layer + 1;
    }
    proof {
        assert(c * r == r * r * r * r) by (nonlinear_arith)
            requires
                c == r * r * r,
        ;
    }
    cells
}
/// A vertex position with integer coordinates (each 0 or ±1), before the
/// caller scales it.
pub type UnitCoord = (i8, i8, i8, i8);

/// The square of a coordinate difference; the small differences that unit
/// coordinates give are spelled out so that the solver reads them directly.
pub open spec fn sq(d: int) -> int {
    if d == 0 {
        0
    } else if d == 1 || d == -1 {
        1
    } else if d == 2 || d == -2 {
        4
    } else {
        d * d
    }
}

/// The squared distance between two integer positions.
pub open spec fn sq_dist(p: UnitCoord, q: UnitCoord) -> int {
    sq(p.0 - q.0) + sq(p.1 - q.1) + sq(p.2 - q.2) + sq(p.3 - q.3)
}

/// Vertices `a` and `b` are joined by an edge: their squared distance is
/// from `lo` to `hi`.
pub open spec fn joined(coords: Seq<UnitCoord>, a: u32, b: u32, lo: int, hi: int) -> bool {
    lo <= sq_dist(coords[a as int], coords[b as int]) <= hi
}

/// A triangle or quadrilateral runs round edges, written out corner by
/// corner.
pub open spec fn face_joined(f: Seq<u32>, coords: Seq<UnitCoord>, lo: int, hi: int) -> bool {
    if f.len() == 3 {
        joined(coords, f[0], f[1], lo, hi) && joined(coords, f[1], f[2], lo, hi) && joined(
            coords,
            f[2],
            f[0],
            lo,
            hi,
        )
    } else {
        f.len() == 4 && joined(coords, f[0], f[1], lo, hi) && joined(coords, f[1], f[2], lo, hi)
            && joined(coords, f[2], f[3], lo, hi) && joined(coords, f[3], f[0], lo, hi)
    }
}

/// The faces from index `i` on each run round edges, corner by corner.
pub open spec fn faces_joined_from(faces: Seq<Seq<u32>>, coords: Seq<UnitCoord>, lo: int, hi: int, i: nat) -> bool
    decreases faces.len() - i,
{
    if i >= faces.len() {
        true
    } else {
        face_joined(faces[i as int], coords, lo, hi) && faces_joined_from(faces, coords, lo, hi, i + 1)
    }
}

/// Faces that run round edges corner by corner, from index `i` on, run round
/// them in the sense of `faces_follow_edges` there.
proof fn lemma_faces_joined_from(faces: Seq<Seq<u32>>, coords: Seq<UnitCoord>, lo: int, hi: int, i: nat)
    requires
        faces_joined_from(faces, coords, lo, hi, i),
    ensures
        i == 0 ==> faces_follow_edges(faces, coords, lo, hi),
        forall|j: int| i <= j < faces.len() ==> face_joined(#[trigger] faces[j], coords, lo, hi),
    decreases faces.len() - i,
{
    if i < faces.len() {
        lemma_faces_joined_from(faces, coords, lo, hi, i + 1);
    }
    if i == 0 {
        assert forall|j: int, k: int| 0 <= j < faces.len() && 0 <= k < faces[j].len() implies lo
            <= sq_dist(
            coords[#[trigger] faces[j][k] as int],
            coords[faces[j][(k + 1) % (faces[j].len() as int)] as int],
        ) <= hi by {
            let f = faces[j];
            assert(face_joined(f, coords, lo, hi));
            if f.len() == 3 {
                assert(k == 0 || k == 1 || k == 2);
            } else {
                assert(k == 0 || k == 1 || k == 2 || k == 3);
            }
        }
    }
}

/// Every face runs round edges of the shape in order: each vertex and the
/// next (the last and the first) are at a squared distance from `lo` to
/// `hi`, the squared lengths of the shape's edges.
pub open spec fn faces_follow_edges(faces: Seq<Seq<u32>>, coords: Seq<UnitCoord>, lo: int, hi: int) -> bool {
    forall|i: int, k: int|
        0 <= i < faces.len() && 0 <= k < faces[i].len() ==> lo <= sq_dist(
            coords[#[trigger] faces[i][k] as int],
            coords[faces[i][(k + 1) % (faces[i].len() as int)] as int],
        ) <= hi
}

/// The vertex positions of a rectangular prism: the corners of the cube `[-1, 1]³`, front face (z = −1) first; vertex `k` at entry `k`.
pub open spec fn box_coord_table() -> Seq<UnitCoord> {
    seq![
        (-1i8, -1i8, -1i8, 0i8),
        (1i8, -1i8, -1i8, 0i8),
        (1i8, 1i8, -1i8, 0i8),
        (-1i8, 1i8, -1i8, 0i8),
        (-1i8, -1i8, 1i8, 0i8),
        (1i8, -1i8, 1i8, 0i8),
        (1i8, 1i8, 1i8, 0i8),
        (-1i8, 1i8, 1i8, 0i8),
    ]
}

/// The vertex positions of `box()`, before scaling: a rectangular prism: the corners of the cube `[-1, 1]³`, front face (z = −1) first.
pub fn box_coords() -> (coords: Vec<UnitCoord>)
    ensures
        coords@ == box_coord_table(),
{
    let coords = vec![
        (-1i8, -1i8, -1i8, 0i8),
        (1i8, -1i8, -1i8, 0i8),
        (1i8, 1i8, -1i8, 0i8),
        (-1i8, 1i8, -1i8, 0i8),
        (-1i8, -1i8, 1i8, 0i8),
        (1i8, -1i8, 1i8, 0i8),
        (1i8, 1i8, 1i8, 0i8),
        (-1i8, 1i8, 1i8, 0i8),
    ];
    assert(coords@ =~= box_coord_table());
    coords
}

/// Law: each face of `box_` runs round four edges of the cube, in order: consecutive corners (and the last and first) differ in one coordinate, by 2.
pub proof fn lemma_box_faces_follow_edges()
    ensures
        faces_follow_edges(box_faces(), box_coord_table(), 4, 4),
{
    reveal_with_fuel(faces_joined_from, 30);
    assert(faces_joined_from(box_faces(), box_coord_table(), 4, 4, 0));
    lemma_faces_joined_from(box_faces(), box_coord_table(), 4, 4, 0);
}

/// The vertex positions of a rectangular pyramid: the base square's corners at height 0, then the apex; vertex `k` at entry `k`.
pub open spec fn rect_pyramid_coord_table() -> Seq<UnitCoord> {
    seq![
        (-1i8, 0i8, -1i8, 0i8),
        (1i8, 0i8, -1i8, 0i8),
        (1i8, 0i8, 1i8, 0i8),
        (-1i8, 0i8, 1i8, 0i8),
        (0i8, 1i8, 0i8, 0i8),
    ]
}

/// The vertex positions of `rect_pyramid()`, before scaling: a rectangular pyramid: the base square's corners at height 0, then the apex.
pub fn rect_pyramid_coords() -> (coords: Vec<UnitCoord>)
    ensures
        coords@ == rect_pyramid_coord_table(),
{
    let coords = vec![
        (-1i8, 0i8, -1i8, 0i8),
        (1i8, 0i8, -1i8, 0i8),
        (1i8, 0i8, 1i8, 0i8),
        (-1i8, 0i8, 1i8, 0i8),
        (0i8, 1i8, 0i8, 0i8),
    ];
    assert(coords@ =~= rect_pyramid_coord_table());
    coords
}

/// Law: each face of `rect_pyramid` runs round edges of the pyramid, in order: consecutive vertices are base neighbours (squared distance 4) or a base corner and the apex (squared distance 3), never a base diagonal (squared distance 8).
pub proof fn lemma_rect_pyramid_faces_follow_edges()
    ensures
        faces_follow_edges(rect_pyramid_faces(), rect_pyramid_coord_table(), 3, 4),
{
    reveal_with_fuel(faces_joined_from, 30);
    assert(faces_joined_from(rect_pyramid_faces(), rect_pyramid_coord_table(), 3, 4, 0));
    lemma_faces_joined_from(rect_pyramid_faces(), rect_pyramid_coord_table(), 3, 4, 0);
}

/// The vertex positions of a hyperrectangle: the corners of the tesseract `[-1, 1]⁴`, inner cube (u = −1) first; vertex `k` at entry `k`.
pub open spec fn hyperrect_coord_table() -> Seq<UnitCoord> {
    seq![
        (-1i8, -1i8, -1i8, -1i8),
        (1i8, -1i8, -1i8, -1i8),
        (1i8, 1i8, -1i8, -1i8),
        (-1i8, 1i8, -1i8, -1i8),
        (-1i8, -1i8, 1i8, -1i8),
        (1i8, -1i8, 1i8, -1i8),
        (1i8, 1i8, 1i8, -1i8),
        (-1i8, 1i8, 1i8, -1i8),
        (-1i8, -1i8, -1i8, 1i8),
        (1i8, -1i8, -1i8, 1i8),
        (1i8, 1i8, -1i8, 1i8),
        (-1i8, 1i8, -1i8, 1i8),
        (-1i8, -1i8, 1i8, 1i8),
        (1i8, -1i8, 1i8, 1i8),
        (1i8, 1i8, 1i8, 1i8),
        (-1i8, 1i8, 1i8, 1i8),
    ]
}

/// The vertex positions of `hyperrect()`, before scaling: a hyperrectangle: the corners of the tesseract `[-1, 1]⁴`, inner cube (u = −1) first.
pub fn hyperrect_coords() -> (coords: Vec<UnitCoord>)
    ensures
        coords@ == hyperrect_coord_table(),
{
    let coords = vec![
        (-1i8, -1i8, -1i8, -1i8),
        (1i8, -1i8, -1i8, -1i8),
        (1i8, 1i8, -1i8, -1i8),
        (-1i8, 1i8, -1i8, -1i8),
        (-1i8, -1i8, 1i8, -1i8),
        (1i8, -1i8, 1i8, -1i8),
        (1i8, 1i8, 1i8, -1i8),
        (-1i8, 1i8, 1i8, -1i8),
        (-1i8, -1i8, -1i8, 1i8),
        (1i8, -1i8, -1i8, 1i8),
        (1i8, 1i8, -1i8, 1i8),
        (-1i8, 1i8, -1i8, 1i8),
        (-1i8, -1i8, 1i8, 1i8),
        (1i8, -1i8, 1i8, 1i8),
        (1i8, 1i8, 1i8, 1i8),
        (-1i8, 1i8, 1i8, 1i8),
    ];
    assert(coords@ =~= hyperrect_coord_table());
    coords
}

/// Law: each face of `hyperrect` runs round four edges of the tesseract, in order: consecutive corners differ in one coordinate, by 2.
pub proof fn lemma_hyperrect_faces_follow_edges()
    ensures
        faces_follow_edges(hyperrect_faces(), hyperrect_coord_table(), 4, 4),
{
    reveal_with_fuel(faces_joined_from, 30);
    assert(faces_joined_from(hyperrect_faces(), hyperrect_coord_table(), 4, 4, 0));
    lemma_faces_joined_from(hyperrect_faces(), hyperrect_coord_table(), 4, 4, 0);
}

/// The vertex positions of the 24-cell: the permutations of `(±1, ±1, 0, 0)`, outer (u = 1), middle and inner (u = −1); vertex `k` at entry `k`.
pub open spec fn twentyfourcell_coord_table() -> Seq<UnitCoord> {
    seq![
        (1i8, 0i8, 0i8, 1i8),
        (0i8, 1i8, 0i8, 1i8),
        (0i8, 0i8, 1i8, 1i8),
        (-1i8, 0i8, 0i8, 1i8),
        (0i8, -1i8, 0i8, 1i8),
        (0i8, 0i8, -1i8, 1i8),
        (1i8, 1i8, 0i8, 0i8),
        (1i8, 0i8, 1i8, 0i8),
        (0i8, 1i8, 1i8, 0i8),
        (-1i8, -1i8, 0i8, 0i8),
        (-1i8, 0i8, -1i8, 0i8),
        (0i8, -1i8, -1i8, 0i8),
        (1i8, -1i8, 0i8, 0i8),
        (1i8, 0i8, -1i8, 0i8),
        (0i8, 1i8, -1i8, 0i8),
        (-1i8, 1i8, 0i8, 0i8),
        (-1i8, 0i8, 1i8, 0i8),
        (0i8, -1i8, 1i8, 0i8),
        (1i8, 0i8, 0i8, -1i8),
        (0i8, 1i8, 0i8, -1i8),
        (0i8, 0i8, 1i8, -1i8),
        (-1i8, 0i8, 0i8, -1i8),
        (0i8, -1i8, 0i8, -1i8),
        (0i8, 0i8, -1i8, -1i8),
    ]
}

/// The vertex positions of `twentyfourcell()`, before scaling: the 24-cell: the permutations of `(±1, ±1, 0, 0)`, outer (u = 1), middle and inner (u = −1).
pub fn twentyfourcell_coords() -> (coords: Vec<UnitCoord>)
    ensures
        coords@ == twentyfourcell_coord_table(),
{
    let coords = vec![
        (1i8, 0i8, 0i8, 1i8),
        (0i8, 1i8, 0i8, 1i8),
        (0i8, 0i8, 1i8, 1i8),
        (-1i8, 0i8, 0i8, 1i8),
        (0i8, -1i8, 0i8, 1i8),
        (0i8, 0i8, -1i8, 1i8),
        (1i8, 1i8, 0i8, 0i8),
        (1i8, 0i8, 1i8, 0i8),
        (0i8, 1i8, 1i8, 0i8),
        (-1i8, -1i8, 0i8, 0i8),
        (-1i8, 0i8, -1i8, 0i8),
        (0i8, -1i8, -1i8, 0i8),
        (1i8, -1i8, 0i8, 0i8),
        (1i8, 0i8, -1i8, 0i8),
        (0i8, 1i8, -1i8, 0i8),
        (-1i8, 1i8, 0i8, 0i8),
        (-1i8, 0i8, 1i8, 0i8),
        (0i8, -1i8, 1i8, 0i8),
        (1i8, 0i8, 0i8, -1i8),
        (0i8, 1i8, 0i8, -1i8),
        (0i8, 0i8, 1i8, -1i8),
        (-1i8, 0i8, 0i8, -1i8),
        (0i8, -1i8, 0i8, -1i8),
        (0i8, 0i8, -1i8, -1i8),
    ];
    assert(coords@ =~= twentyfourcell_coord_table());
    coords
}

/// Law: each face of `twentyfourcell` is a triangle of 24-cell edges: its three vertices are pairwise at squared distance 2, the edge length of the 24-cell.
pub proof fn lemma_twentyfourcell_faces_follow_edges()
    ensures
        faces_follow_edges(twentyfourcell_faces(), twentyfourcell_coord_table(), 2, 2),
{
    reveal_with_fuel(faces_joined_from, 100);
    assert(faces_joined_from(twentyfourcell_faces(), twentyfourcell_coord_table(), 2, 2, 0));
    lemma_faces_joined_from(twentyfourcell_faces(), twentyfourcell_coord_table(), 2, 2, 0);
}

/// Whether the id `x` is one of the corners of a triangle or quadrilateral.
pub open spec fn has_id(f: Seq<u32>, x: u32) -> bool {
    f[0] == x || f[1] == x || f[2] == x || (f.len() == 4 && f[3] == x)
}

/// For a triangle or quadrilateral, `has_id` is membership in its set of ids.
proof fn lemma_has_id(f: Seq<u32>, x: u32)
    requires
        f.len() == 3 || f.len() == 4,
    ensures
        has_id(f, x) <==> f.to_set().contains(x),
{
    if has_id(f, x) {
        if f[0] == x {
            assert(f.contains(f[0]));
        } else if f[1] == x {
            assert(f.contains(f[1]));
        } else if f[2] == x {
            assert(f.contains(f[2]));
        } else {
            assert(f.contains(f[3]));
        }
    }
    if f.to_set().contains(x) {
        assert(f.contains(x));
        let k = choose|k: int| 0 <= k < f.len() && f[k] == x;
        assert(k == 0 || k == 1 || k == 2 || k == 3);
    }
}

/// A number that names the set of ids of a face with ids below 24: the sum
/// of `2^x` over its ids `x`.
pub open spec fn id_key(f: Seq<u32>) -> int {
    (if has_id(f, 0) { 1int } else { 0int })
        + (if has_id(f, 1) { 2int } else { 0int })
        + (if has_id(f, 2) { 4int } else { 0int })
        + (if has_id(f, 3) { 8int } else { 0int })
        + (if has_id(f, 4) { 16int } else { 0int })
        + (if has_id(f, 5) { 32int } else { 0int })
        + (if has_id(f, 6) { 64int } else { 0int })
        + (if has_id(f, 7) { 128int } else { 0int })
        + (if has_id(f, 8) { 256int } else { 0int })
        + (if has_id(f, 9) { 512int } else { 0int })
        + (if has_id(f, 10) { 1024int } else { 0int })
        + (if has_id(f, 11) { 2048int } else { 0int })
        + (if has_id(f, 12) { 4096int } else { 0int })
        + (if has_id(f, 13) { 8192int } else { 0int })
        + (if has_id(f, 14) { 16384int } else { 0int })
        + (if has_id(f, 15) { 32768int } else { 0int })
        + (if has_id(f, 16) { 65536int } else { 0int })
        + (if has_id(f, 17) { 131072int } else { 0int })
        + (if has_id(f, 18) { 262144int } else { 0int })
        + (if has_id(f, 19) { 524288int } else { 0int })
        + (if has_id(f, 20) { 1048576int } else { 0int })
        + (if has_id(f, 21) { 2097152int } else { 0int })
        + (if has_id(f, 22) { 4194304int } else { 0int })
        + (if has_id(f, 23) { 8388608int } else { 0int })
}

/// From index `i` on, each face is a triangle or quadrilateral and
/// `by_key` finds its index again from its `id_key`.
pub open spec fn faces_keyed_from(faces: Seq<Seq<u32>>, by_key: spec_fn(int) -> int, i: nat) -> bool
    decreases faces.len() - i,
{
    if i >= faces.len() {
        true
    } else {
        (faces[i as int].len() == 3 || faces[i as int].len() == 4) && by_key(id_key(faces[i as int]))
            == i && faces_keyed_from(faces, by_key, i + 1)
    }
}

/// Faces whose index can be found again from their `id_key` have pairwise
/// different sets of ids.
proof fn lemma_faces_keyed(faces: Seq<Seq<u32>>, by_key: spec_fn(int) -> int, i: nat)
    requires
        faces_keyed_from(faces, by_key, i),
    ensures
        forall|j: int|
            i <= j < faces.len() ==> ((#[trigger] faces[j]).len() == 3 || faces[j].len() == 4)
                && by_key(id_key(faces[j])) == j,
        i == 0 ==> forall|j: int, l: int|
            0 <= j < l < faces.len() ==> (#[trigger] faces[j]).to_set() != (#[trigger] faces[l]).to_set(),
    decreases faces.len() - i,
{
    if i < faces.len() {
        lemma_faces_keyed(faces, by_key, i + 1);
    }
    if i == 0 {
        assert forall|j: int, l: int| 0 <= j < l < faces.len() implies (#[trigger] faces[j]).to_set()
            != (#[trigger] faces[l]).to_set() by {
            let f = faces[j];
            let g = faces[l];
            if f.to_set() == g.to_set() {
                assert forall|x: u32| x < 24 implies has_id(f, x) == has_id(g, x) by {
                    lemma_has_id(f, x);
                    lemma_has_id(g, x);
                }
                assert(has_id(f, 0) == has_id(g, 0));
                assert(has_id(f, 1) == has_id(g, 1));
                assert(has_id(f, 2) == has_id(g, 2));
                assert(has_id(f, 3) == has_id(g, 3));
                assert(has_id(f, 4) == has_id(g, 4));
                assert(has_id(f, 5) == has_id(g, 5));
                assert(has_id(f, 6) == has_id(g, 6));
                assert(has_id(f, 7) == has_id(g, 7));
                assert(has_id(f, 8) == has_id(g, 8));
                assert(has_id(f, 9) == has_id(g, 9));
                assert(has_id(f, 10) == has_id(g, 10));
                assert(has_id(f, 11) == has_id(g, 11));
                assert(has_id(f, 12) == has_id(g, 12));
                assert(has_id(f, 13) == has_id(g, 13));
                assert(has_id(f, 14) == has_id(g, 14));
                assert(has_id(f, 15) == has_id(g, 15));
                assert(has_id(f, 16) == has_id(g, 16));
                assert(has_id(f, 17) == has_id(g, 17));
                assert(has_id(f, 18) == has_id(g, 18));
                assert(has_id(f, 19) == has_id(g, 19));
                assert(has_id(f, 20) == has_id(g, 20));
                assert(has_id(f, 21) == has_id(g, 21));
                assert(has_id(f, 22) == has_id(g, 22));
                assert(has_id(f, 23) == has_id(g, 23));
                assert(id_key(f) == id_key(g));
            }
        }
    }
}

/// The index in `box_faces()` of the face whose id set has the given
/// `id_key`, and −1 for a key that no face has.
pub open spec fn box_face_by_key(k: int) -> int {
    if k == 15 {
        0
    } else if k == 240 {
        1
    } else if k == 204 {
        2
    } else if k == 51 {
        3
    } else if k == 153 {
        4
    } else if k == 102 {
        5
    } else {
        -1
    }
}

/// Law: no two faces of `box_` join the same set of vertices: its
/// six faces are different faces.
pub proof fn lemma_box_faces_distinct()
    ensures
        forall|i: int, j: int|
            0 <= i < j < box_faces().len() ==> (#[trigger] box_faces()[i]).to_set()
                != (#[trigger] box_faces()[j]).to_set(),
{
    let by_key = |k: int| box_face_by_key(k);
    reveal_with_fuel(faces_keyed_from, 10);
    assert(faces_keyed_from(box_faces(), by_key, 0));
    lemma_faces_keyed(box_faces(), by_key, 0);
}

/// The index in `rect_pyramid_faces()` of the face whose id set has the given
/// `id_key`, and −1 for a key that no face has.
pub open spec fn rect_pyramid_face_by_key(k: int) -> int {
    if k == 15 {
        0
    } else if k == 19 {
        1
    } else if k == 22 {
        2
    } else if k == 28 {
        3
    } else if k == 25 {
        4
    } else {
        -1
    }
}

/// Law: no two faces of `rect_pyramid` join the same set of vertices: its
/// five faces are different faces.
pub proof fn lemma_rect_pyramid_faces_distinct()
    ensures
        forall|i: int, j: int|
            0 <= i < j < rect_pyramid_faces().len() ==> (#[trigger] rect_pyramid_faces()[i]).to_set()
                != (#[trigger] rect_pyramid_faces()[j]).to_set(),
{
    let by_key = |k: int| rect_pyramid_face_by_key(k);
    reveal_with_fuel(faces_keyed_from, 9);
    assert(faces_keyed_from(rect_pyramid_faces(), by_key, 0));
    lemma_faces_keyed(rect_pyramid_faces(), by_key, 0);
}

/// The index in `fivecell_faces()` of the face whose id set has the given
/// `id_key`, and −1 for a key that no face has.
pub open spec fn fivecell_face_by_key(k: int) -> int {
    if k == 7 {
        0
    } else if k == 11 {
        1
    } else if k == 14 {
        2
    } else if k == 13 {
        3
    } else if k == 19 {
        4
    } else if k == 22 {
        5
    } else if k == 21 {
        6
    } else if k == 25 {
        7
    } else if k == 26 {
        8
    } else if k == 28 {
        9
    } else {
        -1
    }
}

/// Law: no two faces of `fivecell` join the same set of vertices: its
/// ten triangles are different faces.
pub proof fn lemma_fivecell_faces_distinct()
    ensures
        forall|i: int, j: int|
            0 <= i < j < fivecell_faces().len() ==> (#[trigger] fivecell_faces()[i]).to_set()
                != (#[trigger] fivecell_faces()[j]).to_set(),
{
    let by_key = |k: int| fivecell_face_by_key(k);
    reveal_with_fuel(faces_keyed_from, 14);
    assert(faces_keyed_from(fivecell_faces(), by_key, 0));
    lemma_faces_keyed(fivecell_faces(), by_key, 0);
}

/// The index in `hyperrect_faces()` of the face whose id set has the given
/// `id_key`, and −1 for a key that no face has.
pub open spec fn hyperrect_face_by_key(k: int) -> int {
    if k == 15 {
        0
    } else if k == 240 {
        1
    } else if k == 204 {
        2
    } else if k == 51 {
        3
    } else if k == 153 {
        4
    } else if k == 102 {
        5
    } else if k == 3840 {
        6
    } else if k == 61440 {
        7
    } else if k == 52224 {
        8
    } else if k == 13056 {
        9
    } else if k == 39168 {
        10
    } else if k == 26112 {
        11
    } else if k == 771 {
        12
    } else if k == 12336 {
        13
    } else if k == 4369 {
        14
    } else if k == 8738 {
        15
    } else if k == 3084 {
        16
    } else if k == 49344 {
        17
    } else if k == 34952 {
        18
    } else if k == 17476 {
        19
    } else if k == 2313 {
        20
    } else if k == 37008 {
        21
    } else if k == 1542 {
        22
    } else if k == 24672 {
        23
    } else {
        -1
    }
}

/// Law: no two faces of `hyperrect` join the same set of vertices: its
/// 24 squares are different faces.
pub proof fn lemma_hyperrect_faces_distinct()
    ensures
        forall|i: int, j: int|
            0 <= i < j < hyperrect_faces().len() ==> (#[trigger] hyperrect_faces()[i]).to_set()
                != (#[trigger] hyperrect_faces()[j]).to_set(),
{
    let by_key = |k: int| hyperrect_face_by_key(k);
    reveal_with_fuel(faces_keyed_from, 28);
    assert(faces_keyed_from(hyperrect_faces(), by_key, 0));
    lemma_faces_keyed(hyperrect_faces(), by_key, 0);
}

/// The index in `twentyfourcell_faces()` of the face whose id set has the given
/// `id_key`, and −1 for a key that no face has.
pub open spec fn twentyfourcell_face_by_key(k: int) -> int {
    if k == 7 {
        0
    } else if k == 21 {
        1
    } else if k == 49 {
        2
    } else if k == 35 {
        3
    } else if k == 14 {
        4
    } else if k == 28 {
        5
    } else if k == 56 {
        6
    } else if k == 42 {
        7
    } else if k == 1835008 {
        8
    } else if k == 5505024 {
        9
    } else if k == 12845056 {
        10
    } else if k == 9175040 {
        11
    } else if k == 3670016 {
        12
    } else if k == 7340032 {
        13
    } else if k == 14680064 {
        14
    } else if k == 11010048 {
        15
    } else if k == 14336 {
        16
    } else if k == 135296 {
        17
    } else if k == 197120 {
        18
    } else if k == 3584 {
        19
    } else if k == 24640 {
        20
    } else if k == 448 {
        21
    } else if k == 98560 {
        22
    } else if k == 50176 {
        23
    } else if k == 67 {
        24
    } else if k == 133 {
        25
    } else if k == 262 {
        26
    } else if k == 536 {
        27
    } else if k == 1064 {
        28
    } else if k == 2096 {
        29
    } else if k == 4113 {
        30
    } else if k == 8225 {
        31
    } else if k == 16418 {
        32
    } else if k == 32778 {
        33
    } else if k == 65548 {
        34
    } else if k == 131092 {
        35
    } else if k == 786496 {
        36
    } else if k == 1310848 {
        37
    } else if k == 1573120 {
        38
    } else if k == 6291968 {
        39
    } else if k == 10486784 {
        40
    } else if k == 12584960 {
        41
    } else if k == 4460544 {
        42
    } else if k == 8658944 {
        43
    } else if k == 8929280 {
        44
    } else if k == 2654208 {
        45
    } else if k == 3211264 {
        46
    } else if k == 5373952 {
        47
    } else if k == 1544 {
        48
    } else if k == 33800 {
        49
    } else if k == 98312 {
        50
    } else if k == 66056 {
        51
    } else if k == 2098688 {
        52
    } else if k == 2130944 {
        53
    } else if k == 2195456 {
        54
    } else if k == 2163200 {
        55
    } else if k == 193 {
        56
    } else if k == 4225 {
        57
    } else if k == 12289 {
        58
    } else if k == 8257 {
        59
    } else if k == 262336 {
        60
    } else if k == 266368 {
        61
    } else if k == 274432 {
        62
    } else if k == 270400 {
        63
    } else if k == 131600 {
        64
    } else if k == 135184 {
        65
    } else if k == 6160 {
        66
    } else if k == 2576 {
        67
    } else if k == 4325888 {
        68
    } else if k == 4329472 {
        69
    } else if k == 4200448 {
        70
    } else if k == 4196864 {
        71
    } else if k == 33026 {
        72
    } else if k == 322 {
        73
    } else if k == 16450 {
        74
    } else if k == 49154 {
        75
    } else if k == 557312 {
        76
    } else if k == 524608 {
        77
    } else if k == 540736 {
        78
    } else if k == 573440 {
        79
    } else if k == 17440 {
        80
    } else if k == 24608 {
        81
    } else if k == 10272 {
        82
    } else if k == 3104 {
        83
    } else if k == 8406016 {
        84
    } else if k == 8413184 {
        85
    } else if k == 8398848 {
        86
    } else if k == 8391680 {
        87
    } else if k == 388 {
        88
    } else if k == 131204 {
        89
    } else if k == 196612 {
        90
    } else if k == 65796 {
        91
    } else if k == 1048960 {
        92
    } else if k == 1179776 {
        93
    } else if k == 1245184 {
        94
    } else if k == 1114368 {
        95
    } else {
        -1
    }
}

/// Law: no two faces of `twentyfourcell` join the same set of vertices: its
/// 96 triangles are different faces.
pub proof fn lemma_twentyfourcell_faces_distinct()
    ensures
        forall|i: int, j: int|
            0 <= i < j < twentyfourcell_faces().len() ==> (#[trigger] twentyfourcell_faces()[i]).to_set()
                != (#[trigger] twentyfourcell_faces()[j]).to_set(),
{
    let by_key = |k: int| twentyfourcell_face_by_key(k);
    reveal_with_fuel(faces_keyed_from, 100);
    assert(faces_keyed_from(twentyfourcell_faces(), by_key, 0));
    lemma_faces_keyed(twentyfourcell_faces(), by_key, 0);
}

/// The place of a grid vertex of a sphere is found again from its id: the
/// longitude is the quotient by the latitude count, the latitude the rest.
proof fn lemma_sph_place(res: int, s: int, a: int, b: int)
    requires
        1 <= res / 2,
        0 <= b < res / 2,
    ensures
        (sph_id(res, s, a, b) - s) / (res / 2) == a,
        (sph_id(res, s, a, b) - s) % (res / 2) == b,
{
    lemma_fundamental_div_mod_converse(sph_id(res, s, a, b) - s, res / 2, a, b);
}

/// The grid ids of a sphere whose ids start at `s` lie from `s` up to
/// below `s + res * (res / 2)`.
proof fn lemma_sph_id_bounds(res: int, s: int, a: int, b: int)
    requires
        1 <= res / 2,
        0 <= a < res,
        0 <= b < res / 2,
    ensures
        s <= sph_id(res, s, a, b) < s + res * (res / 2),
{
    let h = res / 2;
    assert(0 <= a * h && a * h + h <= res * h) by (nonlinear_arith)
        requires
            0 <= a < res,
            1 <= h,
    ;
}

/// A grid vertex of a sphere that is a corner of the quadrilateral at
/// longitude `i`, latitude `j` lies on longitude `i` or the next one, and on
/// latitude `j` or the one above.
proof fn lemma_sph_quad_corner(res: int, s: int, i: int, j: int, a: int, b: int)
    requires
        0 <= s,
        s + sphere_vertex_count(res) <= u32::MAX,
        0 <= i < res,
        0 <= j < res / 2 - 1,
        0 <= a < res,
        0 <= b < res / 2,
        sph_quad(res, i, j, s).contains(sph_id(res, s, a, b) as u32),
    ensures
        a == i || a == next_lon(res, i),
        b == j || b == j + 1,
{
    let n = next_lon(res, i);
    let q = sph_quad(res, i, j, s);
    lemma_sph_id_bounds(res, s, a, b);
    lemma_sph_id_bounds(res, s, i, j);
    lemma_sph_id_bounds(res, s, i, j + 1);
    lemma_sph_id_bounds(res, s, n, j);
    lemma_sph_id_bounds(res, s, n, j + 1);
    lemma_sph_place(res, s, a, b);
    let m = choose|m: int| 0 <= m < q.len() && q[m] == sph_id(res, s, a, b) as u32;
    if m == 0 {
        lemma_sph_place(res, s, i, j);
    } else if m == 1 {
        lemma_sph_place(res, s, i, j + 1);
    } else if m == 2 {
        lemma_sph_place(res, s, n, j + 1);
    } else {
        lemma_sph_place(res, s, n, j);
    }
}

/// Law: on one sphere of a spherinder, the quadrilaterals at two different
/// places (longitude, latitude) join different sets of vertices; the last
/// longitude closes onto the first without repeating a face.
pub proof fn lemma_sphere_quads_distinct(res: int, s: int, i: int, j: int, i2: int, j2: int)
    requires
        0 <= s,
        s + sphere_vertex_count(res) <= u32::MAX,
        0 <= i < res,
        0 <= i2 < res,
        0 <= j < res / 2 - 1,
        0 <= j2 < res / 2 - 1,
        i != i2 || j != j2,
    ensures
        sph_quad(res, i, j, s).to_set() != sph_quad(res, i2, j2, s).to_set(),
{
    let n = next_lon(res, i);
    let n2 = next_lon(res, i2);
    let q = sph_quad(res, i, j, s);
    let q2 = sph_quad(res, i2, j2, s);
    if q.to_set() == q2.to_set() {
        assert(q.contains(q[0]) && q.contains(q[1]) && q.contains(q[3]));
        assert(q2.contains(q2[0]) && q2.contains(q2[1]) && q2.contains(q2[3]));
        assert(q2.to_set().contains(q[0]));
        assert(q2.to_set().contains(q[1]));
        assert(q2.to_set().contains(q[3]));
        assert(q.to_set().contains(q2[0]));
        assert(q.to_set().contains(q2[3]));
        lemma_sph_quad_corner(res, s, i2, j2, i, j);
        lemma_sph_quad_corner(res, s, i2, j2, i, j + 1);
        lemma_sph_quad_corner(res, s, i2, j2, n, j);
        lemma_sph_quad_corner(res, s, i, j, i2, j2);
        lemma_sph_quad_corner(res, s, i, j, n2, j2);
    }
}

/// A grid vertex of a sphere that is a corner of the bottom cap at
/// longitude `i` lies at latitude 0, on longitude `i` or the next one.
proof fn lemma_sph_cap_corner(res: int, s: int, i: int, a: int, b: int)
    requires
        0 <= s,
        s + sphere_vertex_count(res) <= u32::MAX,
        1 <= res / 2,
        0 <= i < res,
        0 <= a < res,
        0 <= b < res / 2,
        sph_cap(res, i, s).contains(sph_id(res, s, a, b) as u32),
    ensures
        a == i || a == next_lon(res, i),
        b == 0,
{
    let n = next_lon(res, i);
    let c = sph_cap(res, i, s);
    lemma_sph_id_bounds(res, s, a, b);
    lemma_sph_id_bounds(res, s, i, 0);
    lemma_sph_id_bounds(res, s, n, 0);
    lemma_sph_place(res, s, a, b);
    let m = choose|m: int| 0 <= m < c.len() && c[m] == sph_id(res, s, a, b) as u32;
    if m == 0 {
        lemma_sph_place(res, s, i, 0);
    } else if m == 1 {
        lemma_sph_place(res, s, n, 0);
    }
}

/// Law: on one sphere of a spherinder with at least three longitudes, the
/// bottom caps at two different longitudes join different sets of vertices.
pub proof fn lemma_sphere_caps_distinct(res: int, s: int, i: int, i2: int)
    requires
        3 <= res,
        0 <= s,
        s + sphere_vertex_count(res) <= u32::MAX,
        0 <= i < res,
        0 <= i2 < res,
        i != i2,
    ensures
        sph_cap(res, i, s).to_set() != sph_cap(res, i2, s).to_set(),
{
    let n = next_lon(res, i);
    let n2 = next_lon(res, i2);
    let c = sph_cap(res, i, s);
    let c2 = sph_cap(res, i2, s);
    if c.to_set() == c2.to_set() {
        assert(c.contains(c[0]) && c.contains(c[1]));
        assert(c2.contains(c2[0]) && c2.contains(c2[1]));
        assert(c2.to_set().contains(c[0]));
        assert(c2.to_set().contains(c[1]));
        assert(c.to_set().contains(c2[0]));
        lemma_sph_cap_corner(res, s, i2, i, 0);
        lemma_sph_cap_corner(res, s, i2, n, 0);
        lemma_sph_cap_corner(res, s, i, i2, 0);
    }
}

/// Law: on one sphere of a spherinder, no bottom cap joins the same set of
/// vertices as a quadrilateral: a cap holds the sphere's bottom vertex, which
/// no quadrilateral does.
pub proof fn lemma_sphere_caps_are_not_quads(res: int, s: int, i: int, j: int, i2: int)
    requires
        0 <= s,
        s + sphere_vertex_count(res) <= u32::MAX,
        0 <= i < res,
        0 <= j < res / 2 - 1,
        0 <= i2 < res,
    ensures
        sph_quad(res, i, j, s).to_set() != sph_cap(res, i2, s).to_set(),
{
    let n = next_lon(res, i);
    let q = sph_quad(res, i, j, s);
    let c = sph_cap(res, i2, s);
    lemma_sph_id_bounds(res, s, i, j);
    lemma_sph_id_bounds(res, s, i, j + 1);
    lemma_sph_id_bounds(res, s, n, j);
    lemma_sph_id_bounds(res, s, n, j + 1);
    if q.to_set() == c.to_set() {
        assert(c.contains(c[2]));
        assert(q.to_set().contains(c[2]));
        let m = choose|m: int| 0 <= m < q.len() && q[m] == c[2];
        assert(m == 0 || m == 1 || m == 2 || m == 3);
    }
}

/// Coordinate `axis` (0 to 3) of a position.
pub open spec fn coord_at(p: UnitCoord, axis: int) -> i8 {
    if axis == 0 {
        p.0
    } else if axis == 1 {
        p.1
    } else if axis == 2 {
        p.2
    } else {
        p.3
    }
}

/// Every corner of face `f` has coordinate `axis` equal to `value`: the face
/// lies in that axis-aligned plane.
pub open spec fn face_on_plane(f: Seq<u32>, coords: Seq<UnitCoord>, axis: int, value: i8) -> bool {
    forall|m: int| 0 <= m < f.len() ==> coord_at(coords[#[trigger] f[m] as int], axis) == value
}

/// The plane of each face of a box, as (axis, side), in the order of the
/// face normals: front (z = −1), back (z = 1), top (y = 1), bottom
/// (y = −1), left (x = −1), right (x = 1).
pub open spec fn box_face_plane(k: int) -> (int, i8) {
    if k == 0 {
        (2, -1i8)
    } else if k == 1 {
        (2, 1i8)
    } else if k == 2 {
        (1, 1i8)
    } else if k == 3 {
        (1, -1i8)
    } else if k == 4 {
        (0, -1i8)
    } else {
        (0, 1i8)
    }
}

/// Law: face `k` of `box_` is the square of the cube on the side its
/// normal points to: front, back, top, bottom, left, right in that order.
pub proof fn lemma_box_faces_face_their_normals()
    ensures
        box_faces().len() == 6,
        forall|k: int|
            0 <= k < 6 ==> (#[trigger] box_faces()[k]).len() == 4 && face_on_plane(
                box_faces()[k],
                box_coord_table(),
                box_face_plane(k).0,
                box_face_plane(k).1,
            ),
{
    let faces = box_faces();
    let c = box_coord_table();
    assert forall|k: int| 0 <= k < 6 implies (#[trigger] faces[k]).len() == 4 && face_on_plane(
        faces[k],
        c,
        box_face_plane(k).0,
        box_face_plane(k).1,
    ) by {
        let f = faces[k];
        let (axis, v) = box_face_plane(k);
        assert forall|m: int| 0 <= m < f.len() implies coord_at(c[#[trigger] f[m] as int], axis) == v by {
            assert(0 <= k < 6);
            assert(m == 0 || m == 1 || m == 2 || m == 3);
        }
    }
}

/// The side of the base that the side triangle `k` (1 to 4) of a pyramid
/// stands on, as (axis, side): front (z = −1), right (x = 1), back
/// (z = 1), left (x = −1).
pub open spec fn rect_pyramid_side(k: int) -> (int, i8) {
    if k == 1 {
        (2, -1i8)
    } else if k == 2 {
        (0, 1i8)
    } else if k == 3 {
        (2, 1i8)
    } else {
        (0, -1i8)
    }
}

/// Law: face 0 of `rect_pyramid` is the base square (height 0) and face `k`
/// for `k` from 1 to 4 is the triangle of base corners `k − 1` and
/// `k mod 4` with the apex 4, standing on the front, right, back and left
/// side of the base in that order.
pub proof fn lemma_rect_pyramid_face_order()
    ensures
        rect_pyramid_faces().len() == 5,
        rect_pyramid_faces()[0] == seq![0u32, 1, 2, 3],
        face_on_plane(rect_pyramid_faces()[0], rect_pyramid_coord_table(), 1, 0i8),
        forall|k: int|
            1 <= k <= 4 ==> #[trigger] rect_pyramid_faces()[k] == seq![(k - 1) as u32, (k % 4) as u32, 4u32],
        forall|k: int|
            1 <= k <= 4 ==> face_on_plane(
                (#[trigger] rect_pyramid_faces()[k]).take(2),
                rect_pyramid_coord_table(),
                rect_pyramid_side(k).0,
                rect_pyramid_side(k).1,
            ) && rect_pyramid_coord_table()[rect_pyramid_faces()[k][2] as int] == (0i8, 1i8, 0i8, 0i8),
{
    let faces = rect_pyramid_faces();
    let c = rect_pyramid_coord_table();
    assert(face_on_plane(faces[0], c, 1, 0i8)) by {
        assert forall|m: int| 0 <= m < faces[0].len() implies coord_at(c[#[trigger] faces[0][m] as int], 1) == 0i8 by {
            assert(m == 0 || m == 1 || m == 2 || m == 3);
        }
    }
    assert forall|k: int| 1 <= k <= 4 implies #[trigger] faces[k] == seq![(k - 1) as u32, (k % 4) as u32, 4u32]
        && face_on_plane(faces[k].take(2), c, rect_pyramid_side(k).0, rect_pyramid_side(k).1)
        && c[faces[k][2] as int] == (0i8, 1i8, 0i8, 0i8) by {
        let f = faces[k];
        assert(k == 1 || k == 2 || k == 3 || k == 4);
        let (axis, v) = rect_pyramid_side(k);
        assert forall|m: int| 0 <= m < f.take(2).len() implies coord_at(c[#[trigger] f.take(2)[m] as int], axis) == v by {
            assert(m == 0 || m == 1);
        }
    }
}

/// Law: the first six faces of `hyperrect` are the faces of the inner cube
/// (u = −1) and the next six those of the outer cube (u = 1), each cube's in
/// the order front, back, top, bottom, left, right of the box; each of the
/// last twelve joins an edge of the outer cube (its first two corners) to
/// the same edge of the inner cube, corner by corner in reverse.
pub proof fn lemma_hyperrect_face_order()
    ensures
        hyperrect_faces().len() == 24,
        forall|k: int|
            0 <= k < 12 ==> (#[trigger] hyperrect_faces()[k]).len() == 4 && face_on_plane(
                hyperrect_faces()[k],
                hyperrect_coord_table(),
                3,
                if k < 6 {
                    -1i8
                } else {
                    1i8
                },
            ) && face_on_plane(
                hyperrect_faces()[k],
                hyperrect_coord_table(),
                box_face_plane(k % 6).0,
                box_face_plane(k % 6).1,
            ),
        forall|k: int|
            12 <= k < 24 ==> {
                let f = #[trigger] hyperrect_faces()[k];
                &&& f.len() == 4
                &&& 8 <= f[0] < 16 && 8 <= f[1] < 16
                &&& f[2] + 8 == f[1] && f[3] + 8 == f[0]
            },
{
    let faces = hyperrect_faces();
    let c = hyperrect_coord_table();
    assert(c[0] == (-1i8, -1i8, -1i8, -1i8));
    assert(c[1] == (1i8, -1i8, -1i8, -1i8));
    assert(c[2] == (1i8, 1i8, -1i8, -1i8));
    assert(c[3] == (-1i8, 1i8, -1i8, -1i8));
    assert(c[4] == (-1i8, -1i8, 1i8, -1i8));
    assert(c[5] == (1i8, -1i8, 1i8, -1i8));
    assert(c[6] == (1i8, 1i8, 1i8, -1i8));
    assert(c[7] == (-1i8, 1i8, 1i8, -1i8));
    assert(c[8] == (-1i8, -1i8, -1i8, 1i8));
    assert(c[9] == (1i8, -1i8, -1i8, 1i8));
    assert(c[10] == (1i8, 1i8, -1i8, 1i8));
    assert(c[11] == (-1i8, 1i8, -1i8, 1i8));
    assert(c[12] == (-1i8, -1i8, 1i8, 1i8));
    assert(c[13] == (1i8, -1i8, 1i8, 1i8));
    assert(c[14] == (1i8, 1i8, 1i8, 1i8));
    assert(c[15] == (-1i8, 1i8, 1i8, 1i8));
    assert forall|k: int| 0 <= k < 24 implies ({
        let f = #[trigger] faces[k];
        &&& f.len() == 4
        &&& k < 12 ==> face_on_plane(f, c, 3, if k < 6 { -1i8 } else { 1i8 })
            && face_on_plane(f, c, box_face_plane(k % 6).0, box_face_plane(k % 6).1)
        &&& 12 <= k ==> 8 <= f[0] < 16 && 8 <= f[1] < 16 && f[2] + 8 == f[1] && f[3] + 8 == f[0]
    }) by {
        let f = faces[k];
        assert forall|axis: int, v: i8| #![trigger face_on_plane(f, c, axis, v)]
            (forall|m: int| 0 <= m < 4 ==> coord_at(c[#[trigger] f[m] as int], axis) == v) && f.len() == 4
            implies face_on_plane(f, c, axis, v) by {}
            if k == 0 {
            } else if k == 1 {
            } else if k == 2 {
            } else if k == 3 {
            } else if k == 4 {
            } else if k == 5 {
            } else if k == 6 {
            } else if k == 7 {
            } else if k == 8 {
            } else if k == 9 {
            } else if k == 10 {
            } else if k == 11 {
            } else if k == 12 {
            } else if k == 13 {
            } else if k == 14 {
            } else if k == 15 {
            } else if k == 16 {
            } else if k == 17 {
            } else if k == 18 {
            } else if k == 19 {
            } else if k == 20 {
            } else if k == 21 {
            } else if k == 22 {
            } else if k == 23 {
            }
    }
}

/// The number of faces made at each longitude of a spherinder: per
/// latitude step two sphere quadrilaterals and two joining faces, and two
/// bottom caps.
pub open spec fn sph_row_len(res: int) -> int {
    if res / 2 >= 2 {
        4 * (res / 2 - 1) + 2
    } else {
        0
    }
}

/// Where the faces made at latitude `j` start within a longitude's faces.
pub open spec fn sph_block_start(j: int) -> int {
    if j == 0 {
        0
    } else {
        4 * j + 2
    }
}

/// How many faces are made at latitude `j`: six at the lowest latitude
/// (with the two bottom caps), four at the others.
pub open spec fn sph_block_len(j: int) -> int {
    if j == 0 {
        6
    } else {
        4
    }
}

proof fn lemma_sph_row_index(res: int, i: int, m: int)
    requires
        0 <= m,
    ensures
        sph_row(res, i, m).len() == (if m == 0 {
            0
        } else {
            4 * m + 2
        }),
        forall|j: int, k: int|
            0 <= j < m && 0 <= k < sph_block_len(j) ==> sph_row(res, i, m)[sph_block_start(j) + k]
                == (#[trigger] sph_block(res, i, j)[k]),
    decreases m,
{
    if m > 0 {
        lemma_sph_row_index(res, i, m - 1);
        let prev = sph_row(res, i, m - 1);
        let blk = sph_block(res, i, m - 1);
        assert(sph_row(res, i, m) == prev + blk);
        assert(blk.len() == sph_block_len(m - 1));
        assert forall|j: int, k: int|
            0 <= j < m && 0 <= k < sph_block_len(j) implies sph_row(res, i, m)[sph_block_start(j) + k]
            == (#[trigger] sph_block(res, i, j)[k]) by {
            if j < m - 1 {
                assert(sph_block_start(j) + k < prev.len());
            } else {
                assert(sph_block_start(j) == prev.len());
            }
        }
    }
}

proof fn lemma_sph_rows_index(res: int, n: int)
    requires
        0 <= n,
        2 <= res,
    ensures
        sph_rows(res, n).len() == n * sph_row_len(res),
        forall|i: int, t: int|
            0 <= i < n && 0 <= t < sph_row_len(res) ==> sph_rows(res, n)[i * sph_row_len(res) + t]
                == (#[trigger] sph_row(res, i, res / 2 - 1)[t]),
    decreases n,
{
    let l = sph_row_len(res);
    if n > 0 {
        lemma_sph_rows_index(res, n - 1);
        lemma_sph_row_index(res, n - 1, res / 2 - 1);
        let prev = sph_rows(res, n - 1);
        assert(sph_rows(res, n) == prev + sph_row(res, n - 1, res / 2 - 1));
        assert((n - 1) * l + l == n * l) by (nonlinear_arith);
        assert forall|i: int, t: int| 0 <= i < n && 0 <= t < l implies sph_rows(res, n)[i * l + t]
            == (#[trigger] sph_row(res, i, res / 2 - 1)[t]) by {
            if i < n - 1 {
                assert(i * l + t < (n - 1) * l) by (nonlinear_arith)
                    requires
                        i < n - 1,
                        0 <= t < l,
                ;
            } else {
                assert(i * l == prev.len());
            }
        }
    } else {
        assert(n * l == 0) by (nonlinear_arith)
            requires
                n == 0,
        ;
    }
}

/// Id `x` is the grid vertex at longitude `lon`, latitude `lat` of the
/// sphere whose ids start at `s`: the longitudes follow one another, each
/// with `res / 2` latitudes.
pub open spec fn at_place(res: int, s: int, x: u32, lon: int, lat: int) -> bool {
    &&& s <= x < s + res * (res / 2)
    &&& (x - s) / (res / 2) == lon
    &&& (x - s) % (res / 2) == lat
}

proof fn lemma_at_place(res: int, s: int, a: int, b: int)
    requires
        1 <= res / 2,
        0 <= a < res,
        0 <= b < res / 2,
        0 <= s,
        s + res * (res / 2) <= u32::MAX,
    ensures
        at_place(res, s, sph_id(res, s, a, b) as u32, a, b),
{
    lemma_sph_id_bounds(res, s, a, b);
    lemma_sph_place(res, s, a, b);
}

/// The faces a spherinder makes at longitude `i`, latitude `j`, described
/// by where their corners lie; `b` is the index of the first of them.
pub open spec fn sph_block_faces_placed(res: int, faces: Seq<Seq<u32>>, b: int, i: int, j: int) -> bool {
    let svc = sphere_vertex_count(res);
    let n = if i == res - 1 {
        0
    } else {
        i + 1
    };
    let bl = sph_block_len(j);
    let joined = faces[b + bl - 2];
    let joined_next = faces[b + bl - 1];
    &&& forall|q: int|
        0 <= q < 2 ==> {
            let f = #[trigger] faces[b + q];
            let s = q * svc;
            &&& f.len() == 4
            &&& at_place(res, s, f[0], i, j) && at_place(res, s, f[1], i, j + 1)
            &&& at_place(res, s, f[2], n, j + 1) && at_place(res, s, f[3], n, j)
        }
    &&& j == 0 ==> forall|q: int|
        0 <= q < 2 ==> {
            let f = #[trigger] faces[b + 2 + q];
            let s = q * svc;
            &&& f.len() == 3
            &&& at_place(res, s, f[0], i, 0) && at_place(res, s, f[1], n, 0)
            &&& f[2] == s + svc - 1
        }
    &&& joined.len() == 4
    &&& at_place(res, 0, joined[0], i, j) && at_place(res, 0, joined[1], i, j + 1)
    &&& joined[2] == joined[0] + svc && joined[3] == joined[1] + svc
    &&& joined_next.len() == 4
    &&& at_place(res, 0, joined_next[0], n, j + 1) && at_place(res, 0, joined_next[1], n, j)
    &&& joined_next[2] == joined_next[0] + svc && joined_next[3] == joined_next[1] + svc
}

proof fn lemma_sph_block_placed(res: int, i: int, j: int)
    requires
        res % 2 == 0,
        2 * sphere_vertex_count(res) <= u32::MAX,
        0 <= i < res,
        0 <= j < res / 2 - 1,
    ensures
        sph_block_faces_placed(res, sph_block(res, i, j), 0, i, j),
        sph_block(res, i, j).len() == sph_block_len(j),
{
    let h = res / 2;
    let svc = sphere_vertex_count(res);
    let n = next_lon(res, i);
    let blk = sph_block(res, i, j);
    let bl = sph_block_len(j);
    assert(res * h + 2 == svc);
    assert(0 * svc == 0 && 1 * svc == svc);
    lemma_at_place(res, 0, i, j);
    lemma_at_place(res, 0, i, j + 1);
    lemma_at_place(res, 0, n, j);
    lemma_at_place(res, 0, n, j + 1);
    lemma_at_place(res, svc, i, j);
    lemma_at_place(res, svc, i, j + 1);
    lemma_at_place(res, svc, n, j);
    lemma_at_place(res, svc, n, j + 1);
    lemma_sph_id_bounds(res, 0, i, j);
    lemma_sph_id_bounds(res, 0, i, j + 1);
    lemma_sph_id_bounds(res, 0, n, j);
    lemma_sph_id_bounds(res, 0, n, j + 1);
    assert(blk.len() == bl);
    assert forall|q: int| 0 <= q < 2 implies {
        let f = #[trigger] blk[0 + q];
        let s = q * svc;
        &&& f.len() == 4
        &&& at_place(res, s, f[0], i, j) && at_place(res, s, f[1], i, j + 1)
        &&& at_place(res, s, f[2], n, j + 1) && at_place(res, s, f[3], n, j)
    } by {
        let s = q * svc;
        assert(s == 0 || s == svc);
        assert(blk[0 + q] == sph_quad(res, i, j, s));
    }
    if j == 0 {
        assert forall|q: int| 0 <= q < 2 implies {
            let f = #[trigger] blk[0 + 2 + q];
            let s = q * svc;
            &&& f.len() == 3
            &&& at_place(res, s, f[0], i, 0) && at_place(res, s, f[1], n, 0)
            &&& f[2] == s + svc - 1
        } by {
            let s = q * svc;
            assert(s == 0 || s == svc);
            assert(blk[0 + 2 + q] == sph_cap(res, i, s));
        }
    }
    let jf = blk[0 + bl - 2];
    let kf = blk[0 + bl - 1];
    assert(jf[2] == jf[0] + svc && jf[3] == jf[1] + svc);
    assert(kf[2] == kf[0] + svc && kf[3] == kf[1] + svc);
}

/// Law: where the corners of every face of a spherinder lie.  The faces made
/// at longitude `i`, latitude `j` (for every longitude and every latitude
/// step, not only the lowest) start at index
/// `i * sph_row_len(res) + sph_block_start(j)` and are, in order:
/// - on the first sphere and then the second (its ids `svc` higher), the
///   quadrilateral through (i, j), (i, j + 1), (i', j + 1), (i', j), where
///   `i'` is the next longitude and the last longitude is followed by the
///   first;
/// - at the lowest latitude, on each sphere the bottom cap through (i, 0),
///   (i', 0) and the sphere's bottom vertex;
/// - the face joining the spheres along longitude `i`: latitudes `j` and
///   `j + 1` on the first sphere, then the same two on the second;
/// - the face joining them along longitude `i'`: latitudes `j + 1` and `j`
///   on the first sphere, then the same two on the second.
#[verifier::rlimit(40)]
pub proof fn lemma_spherinder_face_places(res: int, i: int, j: int)
    requires
        res % 2 == 0,
        2 * sphere_vertex_count(res) <= u32::MAX,
        0 <= i < res,
        0 <= j < res / 2 - 1,
    ensures
        i * sph_row_len(res) + sph_block_start(j) + sph_block_len(j) <= spherinder_faces(res).len(),
        sph_block_faces_placed(
            res,
            spherinder_faces(res),
            i * sph_row_len(res) + sph_block_start(j),
            i,
            j,
        ),
{
    let l = sph_row_len(res);
    let h = res / 2;
    let faces = spherinder_faces(res);
    let b = i * l + sph_block_start(j);
    let blk = sph_block(res, i, j);
    let bl = sph_block_len(j);
    lemma_sph_rows_index(res, res);
    lemma_sph_row_index(res, i, h - 1);
    lemma_sph_block_placed(res, i, j);
    assert(sph_block_start(j) + bl <= l);
    assert(i * l + l <= res * l) by (nonlinear_arith)
        requires
            i < res,
            0 <= l,
    ;
    assert forall|k: int| 0 <= k < bl implies #[trigger] faces[b + k] == blk[k] by {
        assert(sph_row(res, i, h - 1)[sph_block_start(j) + k] == blk[k]);
        assert(faces[i * l + (sph_block_start(j) + k)] == sph_row(res, i, h - 1)[sph_block_start(j) + k]);
    }
    assert(faces[b + 0] == blk[0] && faces[b + 1] == blk[1]);
    assert(faces[b + bl - 2] == blk[0 + bl - 2] && faces[b + bl - 1] == blk[0 + bl - 1]);
    let svc = sphere_vertex_count(res);
    let n = if i == res - 1 {
        0
    } else {
        i + 1
    };
    assert forall|q: int| 0 <= q < 2 implies {
        let f = #[trigger] faces[b + q];
        let s = q * svc;
        &&& f.len() == 4
        &&& at_place(res, s, f[0], i, j) && at_place(res, s, f[1], i, j + 1)
        &&& at_place(res, s, f[2], n, j + 1) && at_place(res, s, f[3], n, j)
    } by {
        assert(faces[b + q] == blk[0 + q]);
    }
    if j == 0 {
        assert forall|q: int| 0 <= q < 2 implies {
            let f = #[trigger] faces[b + 2 + q];
            let s = q * svc;
            &&& f.len() == 3
            &&& at_place(res, s, f[0], i, 0) && at_place(res, s, f[1], n, 0)
            &&& f[2] == s + svc - 1
        } by {
            assert(faces[b + (2 + q)] == blk[2 + q]);
            assert(blk[2 + q] == blk[0 + 2 + q]);
        }
    }
}

/// Law: every face of a spherinder joins pairwise different vertices.
pub proof fn lemma_spherinder_faces_distinct_ids(res: int)
    requires
        res % 2 == 0,
        2 * sphere_vertex_count(res) <= u32::MAX,
    ensures
        forall|x: int|
            0 <= x < spherinder_faces(res).len() ==> (#[trigger] spherinder_faces(res)[x]).no_duplicates(),
{
    let faces = spherinder_faces(res);
    let l = sph_row_len(res);
    let h = res / 2;
    let svc = sphere_vertex_count(res);
    if res >= 2 {
        lemma_sph_rows_index(res, res);
    } else {
        assert(faces.len() == 0);
    }
    assert forall|x: int| 0 <= x < faces.len() implies (#[trigger] faces[x]).no_duplicates() by {
        assert(l > 0) by (nonlinear_arith)
            requires
                faces.len() == res * l,
                0 < faces.len(),
                0 <= l,
        ;
        let i = x / l;
        let t = x % l;
        lemma_fundamental_div_mod(x, l);
        lemma_mod_pos_bound(x, l);
        assert(0 <= i < res) by (nonlinear_arith)
            requires
                x == l * i + t,
                0 <= t < l,
                0 <= x < res * l,
        ;
        assert(i * l == l * i) by (nonlinear_arith);
        let j = if t < 6 {
            0
        } else {
            (t - 2) / 4
        };
        let k = t - sph_block_start(j);
        assert(0 <= j < h - 1 && 0 <= k < sph_block_len(j));
        lemma_spherinder_face_places(res, i, j);
        let b = i * l + sph_block_start(j);
        assert(x == b + k);
        let f = faces[x];
        assert(res * h + 2 == svc);
        if k < 2 {
            assert(faces[b + k] == f);
        } else if j == 0 && k < 4 {
            assert(faces[b + 2 + (k - 2)] == f);
            assert(res * h + (k - 2) * svc < (k - 2) * svc + svc - 1);
        } else {
            assert(k == sph_block_len(j) - 2 || k == sph_block_len(j) - 1);
        }
        assert forall|p: int, q: int| 0 <= p < f.len() && 0 <= q < f.len() && p != q implies f[p] != f[q] by {
            assert(p == 0 || p == 1 || p == 2 || p == 3);
            assert(q == 0 || q == 1 || q == 2 || q == 3);
        }
    }
}

/// Id `x` is vertex `(a, b)` of a `res` × `res` grid: row `a`, column `b`,
/// the rows following one another.
pub open spec fn grid_at(res: int, x: u32, a: int, b: int) -> bool {
    &&& x < res * res
    &&& (x as int) / res == a
    &&& (x as int) % res == b
}

proof fn lemma_grid_at(res: int, a: int, b: int)
    requires
        2 <= res,
        res * res <= u32::MAX,
        0 <= a < res,
        0 <= b < res,
    ensures
        grid_at(res, grid_id(res, a, b) as u32, a, b),
{
    lemma_fundamental_div_mod_converse(a * res + b, res, a, b);
    assert(a * res + b < res * res) by (nonlinear_arith)
        requires
            0 <= a < res,
            0 <= b < res,
    ;
}

/// Law: faces `2 t` and `2 t + 1` of a terrain, for the grid square `t`
/// (row `i = t / (res − 1)`, column `j = t % (res − 1)`), split that square
/// along its diagonal from `(i, j)` to `(i + 1, j + 1)`: the first triangle
/// runs `(i, j)`, `(i, j + 1)`, `(i + 1, j + 1)`, the second `(i, j)`,
/// `(i + 1, j + 1)`, `(i + 1, j)`.  Together they hold the square's four
/// corners and nothing else.
pub proof fn lemma_terrain_squares(res: int, i: int, j: int)
    requires
        2 <= res,
        6 * (res - 1) * (res - 1) <= u32::MAX,
        0 <= i < res - 1,
        0 <= j < res - 1,
    ensures
        ({
            let t = i * (res - 1) + j;
            let f = terrain_faces(res)[2 * t];
            let g = terrain_faces(res)[2 * t + 1];
            &&& 2 * t + 1 < terrain_faces(res).len()
            &&& f.len() == 3 && g.len() == 3
            &&& grid_at(res, f[0], i, j) && grid_at(res, f[1], i, j + 1) && grid_at(res, f[2], i + 1, j + 1)
            &&& grid_at(res, g[0], i, j) && grid_at(res, g[1], i + 1, j + 1) && grid_at(res, g[2], i + 1, j)
        }),
{
    let w = res - 1;
    let t = i * w + j;
    assert(res * res <= 6 * w * w) by (nonlinear_arith)
        requires
            w == res - 1,
            2 <= res,
    ;
    assert(0 <= t && t + 1 <= w * w) by (nonlinear_arith)
        requires
            t == i * w + j,
            0 <= i < w,
            0 <= j < w,
    ;
    assert(2 * (res - 1) * (res - 1) == 2 * (w * w)) by (nonlinear_arith)
        requires
            w == res - 1,
    ;
    lemma_fundamental_div_mod_converse(t, w, i, j);
    assert((2 * t) / 2 == t && (2 * t) % 2 == 0);
    assert((2 * t + 1) / 2 == t && (2 * t + 1) % 2 == 1);
    lemma_grid_at(res, i, j);
    lemma_grid_at(res, i, j + 1);
    lemma_grid_at(res, i + 1, j + 1);
    lemma_grid_at(res, i + 1, j);
}

} // verus!
