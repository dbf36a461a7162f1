//! Mesh connectivity: vertex ids, faces as lists of vertex ids, and the
//! triangle index buffer derived from the faces.

use vstd::prelude::*;

use crate::index_array::IndexArray;

verus! {

/// The faces of a mesh, each as the sequence of its vertex ids.
pub open spec fn faces_view(faces: Seq<IndexArray>) -> Seq<Seq<u32>> {
    faces.map_values(|f: IndexArray| f@)
}

/// Every face is a triangle or a quadrilateral: the only faces that the
/// triangle buffer can be built from.
pub open spec fn drawable(faces: Seq<Seq<u32>>) -> bool {
    forall|i: int| 0 <= i < faces.len() ==> (#[trigger] faces[i]).len() == 3 || faces[i].len() == 4
}

/// The number of vertices used in drawing the faces: the sum of the face
/// lengths.
pub open spec fn face_vertex_total(faces: Seq<Seq<u32>>) -> nat
    decreases faces.len(),
{
    if faces.len() == 0 {
        0
    } else {
        face_vertex_total(faces.drop_last()) + faces.last().len()
    }
}

/// The triangles of one face whose vertices sit at positions
/// `start .. start + n` of the face vertex buffer: one triangle for a
/// triangle, two (sharing the diagonal `start`, `start + 2`) for a
/// quadrilateral.
pub open spec fn face_tris(start: int, n: nat) -> Seq<int> {
    if n == 3 {
        seq![start, start + 1, start + 2]
    } else {
        seq![start, start + 1, start + 2, start, start + 2, start + 3]
    }
}

/// The triangle index buffer of a list of faces: the faces' triangles in
/// order, each face addressed by its cumulative position in the face vertex
/// buffer.
pub open spec fn tris_of(faces: Seq<Seq<u32>>) -> Seq<int>
    decreases faces.len(),
{
    if faces.len() == 0 {
        seq![]
    } else {
        tris_of(faces.drop_last()) + face_tris(
            face_vertex_total(faces.drop_last()) as int,
            faces.last().len(),
        )
    }
}

/// The elements of a `u32` sequence as integers.
pub open spec fn as_ints(s: Seq<u32>) -> Seq<int> {
    s.map_values(|x: u32| x as int)
}

/// Dropping the last face keeps the faces triangles and quadrilaterals.
pub proof fn lemma_drawable_drop_last(faces: Seq<Seq<u32>>)
    requires
        drawable(faces),
        faces.len() > 0,
    ensures
        drawable(faces.drop_last()),
{
    let rest = faces.drop_last();
    assert forall|i: int| 0 <= i < rest.len() implies (#[trigger] rest[i]).len() == 3 || rest[i].len()
        == 4 by {
        assert(rest[i] == faces[i]);
    }
}

/// Faces all of length `k` have `k` face vertices each.
pub proof fn lemma_face_vertex_total_uniform(faces: Seq<Seq<u32>>, k: nat)
    requires
        forall|i: int| 0 <= i < faces.len() ==> (#[trigger] faces[i]).len() == k,
    ensures
        face_vertex_total(faces) == k * faces.len(),
    decreases faces.len(),
{
    if faces.len() > 0 {
        let rest = faces.drop_last();
        assert forall|i: int| 0 <= i < rest.len() implies (#[trigger] rest[i]).len() == k by {
            assert(rest[i] == faces[i]);
        }
        lemma_face_vertex_total_uniform(rest, k);
        assert(faces.last() == faces[faces.len() - 1]);
        assert(k * rest.len() + k == k * faces.len()) by (nonlinear_arith)
            requires
                rest.len() + 1 == faces.len(),
        ;
    }
}

/// The sum of the face lengths never falls when faces are added.
pub proof fn lemma_face_vertex_total_prefix(faces: Seq<Seq<u32>>, k: int)
    requires
        0 <= k <= faces.len(),
    ensures
        face_vertex_total(faces.take(k)) <= face_vertex_total(faces),
    decreases faces.len(),
{
    if k < faces.len() {
        assert(faces.drop_last().take(k) =~= faces.take(k));
        lemma_face_vertex_total_prefix(faces.drop_last(), k);
    } else {
        assert(faces.take(k) =~= faces);
    }
}

/// Law: the triangle buffer addresses only the face vertex buffer.  Every
/// index of `tris_of(faces)` lies in `0 .. face_vertex_total(faces)`, and the
/// buffer holds whole triangles.
pub proof fn lemma_tris_within_face_vertices(faces: Seq<Seq<u32>>)
    requires
        drawable(faces),
    ensures
        tris_of(faces).len() % 3 == 0,
        forall|i: int|
            0 <= i < tris_of(faces).len() ==> 0 <= #[trigger] tris_of(faces)[i] < face_vertex_total(
                faces,
            ),
    decreases faces.len(),
{
    if faces.len() > 0 {
        let rest = faces.drop_last();
        lemma_drawable_drop_last(faces);
        lemma_tris_within_face_vertices(rest);
        assert(faces.last() == faces[faces.len() - 1]);
        let t = tris_of(faces);
        let tr = tris_of(rest);
        let ft = face_tris(face_vertex_total(rest) as int, faces.last().len());
        assert(t == tr + ft);
        assert forall|i: int| 0 <= i < t.len() implies 0 <= #[trigger] t[i] < face_vertex_total(
            faces,
        ) by {
            if i < tr.len() {
                assert(t[i] == tr[i]);
            } else {
                assert(t[i] == ft[i - tr.len()]);
            }
        }
    }
}

/// The face vertex total of faces that are triangles or quadrilaterals is at
/// most four per face.
pub proof fn lemma_face_vertex_total_bound(faces: Seq<Seq<u32>>)
    requires
        drawable(faces),
    ensures
        face_vertex_total(faces) <= 4 * faces.len(),
    decreases faces.len(),
{
    if faces.len() > 0 {
        let rest = faces.drop_last();
        lemma_drawable_drop_last(faces);
        lemma_face_vertex_total_bound(rest);
        assert(faces.last() == faces[faces.len() - 1]);
    }
}

/// The face vertex total of two lists of faces, one after the other, is the
/// sum of their totals.
pub proof fn lemma_face_vertex_total_concat(a: Seq<Seq<u32>>, b: Seq<Seq<u32>>)
    ensures
        face_vertex_total(a + b) == face_vertex_total(a) + face_vertex_total(b),
    decreases b.len(),
{
    if b.len() > 0 {
        assert((a + b).drop_last() =~= a + b.drop_last());
        assert((a + b).last() == b.last());
        lemma_face_vertex_total_concat(a, b.drop_last());
    } else {
        assert(a + b =~= a);
    }
}

/// Adding a face adds its length to the face vertex total.
pub proof fn lemma_face_vertex_total_push(faces: Seq<Seq<u32>>, f: Seq<u32>)
    ensures
        face_vertex_total(faces.push(f)) == face_vertex_total(faces) + f.len(),
{
    assert(faces.push(f).drop_last() =~= faces);
}

/// A mesh's connectivity.  Vertex ids run from `0` to `vertex_count - 1`;
/// each face lists the ids of its vertices in the order of consecutive
/// edges; `tris` is the triangle index buffer built from the faces.
#[derive(Debug, Clone)]
pub struct Mesh {
    pub vertex_count: u32,
    pub faces_vert: Vec<IndexArray>,
    pub tris: IndexArray,
}

impl Mesh {
    /// A mesh with vertex ids `0 .. vertex_count` and the given faces; the
    /// triangle buffer is built from the faces (see `make_tris`).
    pub fn new(vertex_count: u32, faces_vert: Vec<IndexArray>) -> (m: Mesh)
        requires
            drawable(faces_view(faces_vert@)),
            face_vertex_total(faces_view(faces_vert@)) <= u32::MAX,
        ensures
            m.vertex_count == vertex_count,
            m.faces_vert@ == faces_vert@,
            m.tris_built(),
    {
        let mut result = Mesh { vertex_count, faces_vert, tris: IndexArray::new(Vec::new()) };
        result.make_tris();
        result
    }

    /// The faces, each as the sequence of its vertex ids.
    pub open spec fn faces(&self) -> Seq<Seq<u32>> {
        faces_view(self.faces_vert@)
    }

    /// Every face refers to vertices of the mesh only.
    pub open spec fn wf(&self) -> bool {
        forall|i: int, j: int|
            0 <= i < self.faces().len() && 0 <= j < self.faces()[i].len() ==> #[trigger] self.faces()[i][j]
                < self.vertex_count
    }

    /// The triangle buffer matches the faces.
    pub open spec fn tris_built(&self) -> bool {
        as_ints(self.tris@) == tris_of(self.faces())
    }

    /// Divides the faces into triangles of indices.  The indices are not
    /// vertex ids but cumulative positions of the face vertices, as they
    /// appear in an index buffer: a triangle `[c, c + 1, c + 2]`, a
    /// quadrilateral `[c, c + 1, c + 2, c, c + 2, c + 3]`, where `c` is the
    /// number of face vertices before the face.  A face of another length
    /// panics, so `requires` leaves it out.
    pub fn make_tris(&mut self)
        requires
            drawable(old(self).faces()),
            face_vertex_total(old(self).faces()) <= u32::MAX,
        ensures
            final(self).vertex_count == old(self).vertex_count,
            final(self).faces_vert@ == old(self).faces_vert@,
            final(self).tris_built(),
    {
        let ghost faces = self.faces();
        let mut result: Vec<u32> = Vec::new();
        let mut current_i: usize = 0;
        let mut k: usize = 0;
        while k < self.faces_vert.len()
            invariant
                faces == self.faces(),
                faces.len() == self.faces_vert@.len(),
                drawable(faces),
                face_vertex_total(faces) <= u32::MAX,
                0 <= k <= faces.len(),
                current_i == face_vertex_total(faces.take(k as int)),
                as_ints(result@) == tris_of(faces.take(k as int)),
            decreases faces.len() - k,
        {
            let n = self.faces_vert[k].len();
            proof {
                assert(faces.take(k + 1).drop_last() =~= faces.take(k as int));
                assert(faces.take(k + 1).last() == faces[k as int]);
                assert(faces[k as int] == self.faces_vert@[k as int]@);
                lemma_face_vertex_total_prefix(faces, k + 1);
            }
            let c = current_i as u32;
            let ghost prev = result@;
            if n == 3 {
                result.push(c);
                result.push(c + 1);
                result.push(c + 2);
            } else {
                result.push(c);
                result.push(c + 1);
                result.push(c + 2);
                result.push(c);
                result.push(c + 2);
                result.push(c + 3);
            }
            assert(as_ints(result@) =~= as_ints(prev) + face_tris(current_i as int, n as nat));
            current_i = current_i + n;
            k = k + 1;
        }
        assert(faces.take(faces.len() as int) =~= faces);
        self.tris = IndexArray::new(result);
    }

    /// The number of vertices used in drawing faces, i.e. the sum of the
    /// face lengths (24 for a box: 6 faces of 4 vertices).
    pub fn num_face_verts(&self) -> (n: u32)
        requires
            face_vertex_total(self.faces()) <= u32::MAX,
        ensures
            n == face_vertex_total(self.faces()),
    {
        let ghost faces = self.faces();
        let mut acc: u32 = 0;
        let mut k: usize = 0;
        while k < self.faces_vert.len()
            invariant
                faces == self.faces(),
                faces.len() == self.faces_vert@.len(),
                face_vertex_total(faces) <= u32::MAX,
                0 <= k <= faces.len(),
                acc == face_vertex_total(faces.take(k as int)),
            decreases faces.len() - k,
        {
            proof {
                assert(faces.take(k + 1).drop_last() =~= faces.take(k as int));
                lemma_face_vertex_total_prefix(faces, k + 1);
            }
            let n = self.faces_vert[k].len();
            acc = acc + n as u32;
            k = k + 1;
        }
        assert(faces.take(faces.len() as int) =~= faces);
        acc
    }
}

/// The total number of vertices of a list of meshes.
pub open spec fn vertex_count_sum(meshes: Seq<Mesh>) -> int
    decreases meshes.len(),
{
    if meshes.len() == 0 {
        0
    } else {
        vertex_count_sum(meshes.drop_last()) + meshes.last().vertex_count
    }
}

/// A face with `k` added to each vertex id.
pub open spec fn shift_face(face: Seq<u32>, k: int) -> Seq<u32> {
    Seq::new(face.len(), |j: int| (face[j] + k) as u32)
}

/// Faces with `k` added to each vertex id.
pub open spec fn shift_faces(faces: Seq<Seq<u32>>, k: int) -> Seq<Seq<u32>> {
    Seq::new(faces.len(), |i: int| shift_face(faces[i], k))
}

/// The faces of `meshes`, appended in order to a mesh of `base_count`
/// vertices: each mesh's vertex ids are moved past those of the base and of
/// the meshes before it, so that they stay unique.
pub open spec fn appended_faces(meshes: Seq<Mesh>, base_count: int) -> Seq<Seq<u32>>
    decreases meshes.len(),
{
    if meshes.len() == 0 {
        seq![]
    } else {
        appended_faces(meshes.drop_last(), base_count) + shift_faces(
            meshes.last().faces(),
            base_count + vertex_count_sum(meshes.drop_last()),
        )
    }
}

/// The faces of `base` followed by those of `meshes`, with the vertex ids of
/// `meshes` moved as in `appended_faces`.
pub open spec fn combined_faces(base: Mesh, meshes: Seq<Mesh>) -> Seq<Seq<u32>> {
    base.faces() + appended_faces(meshes, base.vertex_count as int)
}

/// Moving the vertex ids of every mesh past those before it overflows no
/// `u32`.
pub open spec fn offsets_fit(base: Mesh, meshes: Seq<Mesh>) -> bool {
    &&& base.vertex_count + vertex_count_sum(meshes) <= u32::MAX
    &&& forall|k: int, i: int, j: int|
        0 <= k < meshes.len() && 0 <= i < meshes[k].faces().len() && 0 <= j
            < meshes[k].faces()[i].len() ==> #[trigger] meshes[k].faces()[i][j] + base.vertex_count
            + vertex_count_sum(meshes.take(k)) <= u32::MAX
}

/// The vertex count of a prefix of the meshes is at most that of all.
pub proof fn lemma_vertex_count_sum_prefix(meshes: Seq<Mesh>, k: int)
    requires
        0 <= k <= meshes.len(),
    ensures
        0 <= vertex_count_sum(meshes.take(k)) <= vertex_count_sum(meshes),
    decreases meshes.len(),
{
    if k < meshes.len() {
        assert(meshes.drop_last().take(k) =~= meshes.take(k));
        lemma_vertex_count_sum_prefix(meshes.drop_last(), k);
    } else {
        assert(meshes.take(k) =~= meshes);
        if meshes.len() > 0 {
            lemma_vertex_count_sum_prefix(meshes.drop_last(), meshes.len() - 1);
            assert(meshes.drop_last().take(meshes.len() - 1) =~= meshes.drop_last());
        }
    }
}

/// The first vertex id given to each of `meshes` when they are appended to
/// `base`: the vertex count of `base` and of the meshes before it.
pub fn vertex_id_offsets(base: &Mesh, meshes: &Vec<Mesh>) -> (offsets: Vec<u32>)
    requires
        base.vertex_count + vertex_count_sum(meshes@) <= u32::MAX,
    ensures
        offsets@.len() == meshes@.len(),
        forall|k: int|
            0 <= k < meshes@.len() ==> #[trigger] offsets@[k] == base.vertex_count
                + vertex_count_sum(meshes@.take(k)),
{
    let mut offsets: Vec<u32> = Vec::new();
    let mut id_addition: u32 = base.vertex_count;
    let mut m: usize = 0;
    while m < meshes.len()
        invariant
            base.vertex_count + vertex_count_sum(meshes@) <= u32::MAX,
            0 <= m <= meshes@.len(),
            id_addition == base.vertex_count + vertex_count_sum(meshes@.take(m as int)),
            offsets@.len() == m,
            forall|k: int|
                0 <= k < m ==> #[trigger] offsets@[k] == base.vertex_count + vertex_count_sum(
                    meshes@.take(k),
                ),
        decreases meshes@.len() - m,
    {
        offsets.push(id_addition);
        proof {
            assert(meshes@.take(m + 1).drop_last() =~= meshes@.take(m as int));
            lemma_vertex_count_sum_prefix(meshes@, m + 1);
        }
        id_addition = id_addition + meshes[m].vertex_count;
        m = m + 1;
    }
    offsets
}

/// Appends `meshes` to `base`.  The vertex ids of each appended mesh are
/// moved past those already present, so that they stay unique; the faces
/// follow in order, and the triangle buffer is rebuilt.  The caller places
/// each mesh's vertices at the offsets of `vertex_id_offsets`.
pub fn combine_meshes(base: Mesh, meshes: Vec<Mesh>) -> (m: Mesh)
    requires
        offsets_fit(base, meshes@),
        drawable(combined_faces(base, meshes@)),
        face_vertex_total(combined_faces(base, meshes@)) <= u32::MAX,
    ensures
        m.vertex_count == base.vertex_count + vertex_count_sum(meshes@),
        m.faces() == combined_faces(base, meshes@),
        m.tris_built(),
        (base.wf() && forall|k: int| 0 <= k < meshes@.len() ==> (#[trigger] meshes@[k]).wf())
            ==> m.wf(),
{
    let ghost all_wf = base.wf() && forall|k: int|
        0 <= k < meshes@.len() ==> (#[trigger] meshes@[k]).wf();
    let ghost base_faces = base.faces();
    let ghost base_count = base.vertex_count as int;
    let Mesh { vertex_count, faces_vert, tris: _ } = base;
    let mut faces = faces_vert;
    let mut id_addition: u32 = vertex_count;
    let mut m: usize = 0;
    while m < meshes.len()
        invariant
            offsets_fit(base, meshes@),
            base_count == vertex_count,
            base.vertex_count == vertex_count,
            base_faces == base.faces(),
            all_wf == (base.wf() && forall|k: int|
                0 <= k < meshes@.len() ==> (#[trigger] meshes@[k]).wf()),
            0 <= m <= meshes@.len(),
            id_addition == vertex_count + vertex_count_sum(meshes@.take(m as int)),
            faces_view(faces@) == base_faces + appended_faces(meshes@.take(m as int), base_count),
            all_wf ==> forall|i: int, j: int|
                0 <= i < faces@.len() && 0 <= j < faces_view(faces@)[i].len() ==> #[trigger] faces_view(
                    faces@,
                )[i][j] < id_addition,
        decreases meshes@.len() - m,
    {
        let mesh = &meshes[m];
        let ghost prefix = faces_view(faces@);
        let ghost mfaces = mesh.faces();
        proof {
            lemma_vertex_count_sum_prefix(meshes@, m as int);
            lemma_vertex_count_sum_prefix(meshes@, m + 1);
            assert(meshes@.take(m + 1).drop_last() =~= meshes@.take(m as int));
            assert(meshes@.take(m + 1).last() == meshes@[m as int]);
            assert(vertex_count_sum(meshes@.take(m + 1)) == vertex_count_sum(meshes@.take(m as int))
                + meshes@[m as int].vertex_count);
        }
        let mut f: usize = 0;
        while f < mesh.faces_vert.len()
            invariant
                offsets_fit(base, meshes@),
                base.vertex_count == vertex_count,
                0 <= m < meshes@.len(),
                mesh == meshes@[m as int],
                mfaces == mesh.faces(),
                mfaces.len() == mesh.faces_vert@.len(),
                id_addition == vertex_count + vertex_count_sum(meshes@.take(m as int)),
                id_addition + mesh.vertex_count <= u32::MAX,
                0 <= f <= mfaces.len(),
                faces_view(faces@) == prefix + shift_faces(mfaces.take(f as int), id_addition as int),
                all_wf ==> mesh.wf(),
                all_wf ==> forall|i: int, j: int|
                    0 <= i < faces@.len() && 0 <= j < faces_view(faces@)[i].len() ==> #[trigger] faces_view(
                        faces@,
                    )[i][j] < id_addition + mesh.vertex_count,
            decreases mfaces.len() - f,
        {
            let face = &mesh.faces_vert[f];
            proof {
                assert(mfaces[f as int] == face@);
                assert forall|j: int| 0 <= j < face@.len() implies face@[j] + id_addition
                    <= u32::MAX by {
                    assert(meshes@[m as int].faces()[f as int][j] == face@[j]);
                }
            }
            let shifted = face.plus(id_addition);
            let ghost before = faces_view(faces@);
            faces.push(shifted);
            proof {
                assert(shifted@ =~= shift_face(mfaces[f as int], id_addition as int));
                assert(shift_faces(mfaces.take(f + 1), id_addition as int) =~= shift_faces(
                    mfaces.take(f as int),
                    id_addition as int,
                ).push(shift_face(mfaces[f as int], id_addition as int)));
                assert(faces_view(faces@) =~= before.push(shifted@));
                if all_wf {
                    assert forall|i: int, j: int|
                        0 <= i < faces@.len() && 0 <= j < faces_view(faces@)[i].len() implies #[trigger] faces_view(
                            faces@,
                        )[i][j] < id_addition + mesh.vertex_count by {
                        if i == faces@.len() - 1 {
                            assert(faces_view(faces@)[i] == shifted@);
                            assert(mfaces[f as int][j] < mesh.vertex_count);
                        } else {
                            assert(faces_view(faces@)[i] == before[i]);
                        }
                    }
                }
            }
            f = f + 1;
        }
        proof {
            assert(mfaces.take(mfaces.len() as int) =~= mfaces);
            assert(appended_faces(meshes@.take(m + 1), base_count) =~= appended_faces(
                meshes@.take(m as int),
                base_count,
            ) + shift_faces(mfaces, id_addition as int));
        }
        id_addition = id_addition + mesh.vertex_count;
        m = m + 1;
    }
    proof {
        assert(meshes@.take(meshes@.len() as int) =~= meshes@);
    }
    let mut result = Mesh { vertex_count: id_addition, faces_vert: faces, tris: IndexArray::new(Vec::new()) };
    result.make_tris();
    result
}

/// The total of the face vertex totals of a list of meshes.
pub open spec fn face_vertex_sum(meshes: Seq<Mesh>) -> int
    decreases meshes.len(),
{
    if meshes.len() == 0 {
        0
    } else {
        face_vertex_sum(meshes.drop_last()) + face_vertex_total(meshes.last().faces())
    }
}

/// Moving vertex ids keeps each face's length, hence the face vertex total
/// and drawability.
pub proof fn lemma_shift_faces(faces: Seq<Seq<u32>>, k: int)
    ensures
        face_vertex_total(shift_faces(faces, k)) == face_vertex_total(faces),
        drawable(faces) ==> drawable(shift_faces(faces, k)),
    decreases faces.len(),
{
    if faces.len() > 0 {
        assert(shift_faces(faces, k).drop_last() =~= shift_faces(faces.drop_last(), k));
        lemma_shift_faces(faces.drop_last(), k);
    }
    if drawable(faces) {
        assert forall|i: int| 0 <= i < shift_faces(faces, k).len() implies (#[trigger] shift_faces(
            faces,
            k,
        )[i]).len() == 3 || shift_faces(faces, k)[i].len() == 4 by {
            assert(shift_faces(faces, k)[i].len() == faces[i].len());
        }
    }
}

/// Two lists of triangles and quadrilaterals, one after the other, are
/// triangles and quadrilaterals.
pub proof fn lemma_drawable_concat(a: Seq<Seq<u32>>, b: Seq<Seq<u32>>)
    requires
        drawable(a),
        drawable(b),
    ensures
        drawable(a + b),
{
    assert forall|i: int| 0 <= i < (a + b).len() implies (#[trigger] (a + b)[i]).len() == 3 || (a
        + b)[i].len() == 4 by {
        if i < a.len() {
            assert((a + b)[i] == a[i]);
        } else {
            assert((a + b)[i] == b[i - a.len()]);
        }
    }
}

/// Appending meshes of triangles and quadrilaterals gives triangles and
/// quadrilaterals, and adds up the face vertex totals.
pub proof fn lemma_appended_faces(meshes: Seq<Mesh>, base_count: int)
    requires
        forall|k: int| 0 <= k < meshes.len() ==> drawable(#[trigger] meshes[k].faces()),
    ensures
        drawable(appended_faces(meshes, base_count)),
        face_vertex_total(appended_faces(meshes, base_count)) == face_vertex_sum(meshes),
    decreases meshes.len(),
{
    if meshes.len() == 0 {
        assert(drawable(appended_faces(meshes, base_count)));
    } else {
        let rest = meshes.drop_last();
        assert forall|k: int| 0 <= k < rest.len() implies drawable(#[trigger] rest[k].faces()) by {
            assert(rest[k] == meshes[k]);
        }
        lemma_appended_faces(rest, base_count);
        let last = meshes.last();
        assert(last == meshes[meshes.len() - 1]);
        let shifted = shift_faces(last.faces(), base_count + vertex_count_sum(rest));
        lemma_shift_faces(last.faces(), base_count + vertex_count_sum(rest));
        lemma_drawable_concat(appended_faces(rest, base_count), shifted);
        lemma_face_vertex_total_concat(appended_faces(rest, base_count), shifted);
    }
}

/// Meshes whose faces refer to their own vertices only can be appended
/// without overflow as long as the total vertex count fits.
pub proof fn lemma_offsets_fit(base: Mesh, meshes: Seq<Mesh>)
    requires
        forall|k: int| 0 <= k < meshes.len() ==> (#[trigger] meshes[k]).wf(),
        base.vertex_count + vertex_count_sum(meshes) <= u32::MAX,
    ensures
        offsets_fit(base, meshes),
{
    assert forall|k: int, i: int, j: int|
        0 <= k < meshes.len() && 0 <= i < meshes[k].faces().len() && 0 <= j
            < meshes[k].faces()[i].len() implies #[trigger] meshes[k].faces()[i][j]
        + base.vertex_count + vertex_count_sum(meshes.take(k)) <= u32::MAX by {
        assert(meshes[k].wf());
        assert(meshes[k].faces()[i][j] < meshes[k].vertex_count);
        lemma_vertex_count_sum_prefix(meshes, k + 1);
        assert(meshes.take(k + 1).drop_last() =~= meshes.take(k));
        assert(meshes.take(k + 1).last() == meshes[k]);
    }
}

/// Law: appending no meshes leaves the faces as they are.
pub proof fn lemma_combine_nothing(base: Mesh)
    ensures
        combined_faces(base, Seq::<Mesh>::empty()) == base.faces(),
        vertex_count_sum(Seq::<Mesh>::empty()) == 0,
{
    assert(combined_faces(base, Seq::<Mesh>::empty()) =~= base.faces());
}

/// Law: appending `b` and then `c` gives the faces and vertex count of
/// appending `b` and `c` at once, wherever appending both at once moves no
/// id past `u32`.  `ab` stands for the result of the first
/// step, as `combine_meshes` describes it.
pub proof fn lemma_combine_in_steps(a: Mesh, b: Mesh, c: Mesh, ab: Mesh)
    requires
        offsets_fit(a, seq![b, c]),
        ab.vertex_count == a.vertex_count + vertex_count_sum(seq![b]),
        ab.faces() == combined_faces(a, seq![b]),
    ensures
        combined_faces(ab, seq![c]) == combined_faces(a, seq![b, c]),
        ab.vertex_count + vertex_count_sum(seq![c]) == a.vertex_count + vertex_count_sum(
            seq![b, c],
        ),
{
    let e = Seq::<Mesh>::empty();
    assert(seq![b].drop_last() =~= e);
    assert(seq![c].drop_last() =~= e);
    assert(seq![b, c].drop_last() =~= seq![b]);
    assert(vertex_count_sum(e) == 0);
    assert(appended_faces(e, ab.vertex_count as int) =~= Seq::<Seq<u32>>::empty());
    assert(appended_faces(e, a.vertex_count as int) =~= Seq::<Seq<u32>>::empty());
    assert(appended_faces(seq![b], a.vertex_count as int) =~= shift_faces(
        b.faces(),
        a.vertex_count as int,
    ));
    assert(appended_faces(seq![c], ab.vertex_count as int) =~= shift_faces(
        c.faces(),
        ab.vertex_count as int,
    ));
    assert(vertex_count_sum(seq![b]) == b.vertex_count);
    assert(vertex_count_sum(seq![c]) == c.vertex_count);
    assert(combined_faces(ab, seq![c]) =~= combined_faces(a, seq![b, c]));
}

} // verus!
