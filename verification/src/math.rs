//! Column-major vector and matrix types over 64-bit integer scalars.

pub mod matrix;
pub mod vector;

pub use matrix::Matrix;
pub use matrix::SMatrix;
pub use vector::Vector;
