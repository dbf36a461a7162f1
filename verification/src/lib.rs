//! Integer core of a four-dimensional shape renderer: mesh topology
//! (faces, triangle index buffers, vertex id bookkeeping), the shape
//! generators' connectivity, Cohen–Sutherland outcode decisions and the
//! keyboard dispatch table.  Everything that computes on coordinates lives
//! with the caller.

pub mod clipping;
pub mod index_array;
pub mod input;
pub mod mesh;
pub mod shape_maker;

pub use index_array::IndexArray;
pub use mesh::Mesh;
