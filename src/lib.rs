//! Small dense matrices over a generic integer element type, with shape-checked
//! construction, elementwise arithmetic, products, transpose and rendering.

pub mod grid;
pub mod laws;
pub mod matrix;
pub mod scalar;

pub use matrix::{Matrix, MatrixError};
pub use scalar::Scalar;
