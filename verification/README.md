# fourd

A four-dimensional shape renderer's core, verified with Verus.

- `src/` — the verified library:
  - `index_array`: one-dimensional `ndarray` arrays of vertex ids.
  - `mesh`: mesh connectivity — faces, the triangle index buffer built from
    them, and appending meshes with unique vertex ids.
  - `shape_maker`: which vertices each face of each shape joins (box,
    pyramid, 5-cell, tesseract, 24-cell, terrain grid, spherinder, arrow,
    origin marker), the unit coordinates of the polytopes, and the ids of
    grids of shapes.
  - `clipping`: Cohen–Sutherland outcodes and the decision of each step.
  - `input`: the keyboard dispatch table and movement unit vectors.
- `app/` — the floating-point geometry (vertex positions, normals,
  matrices, scenes) and the functions a browser front end calls, built on
  the library.
- `tests/` — tests of the library on concrete values.
