//! Geometry data as the rendering core reads it: labelled vertex attributes
//! with their upload flags, and a mesh that pairs a geometry with the
//! captured material capability and a packed model matrix.

pub mod geometry;
pub mod mesh;

pub use geometry::Attribute;
pub use geometry::Geometry;
pub use mesh::Mesh;
