//! Exact vector algebra for 2- and 3-component vectors.
//!
//! Scalars are exact rational numbers, so every operation that is algebraic
//! (addition, scaling, dot and cross products, interpolation, reflection,
//! projection, magnitude comparison) is computed exactly and carries a
//! verified contract. Operations that are inherently irrational (square
//! roots and trigonometry) are left to unverified floating-point callers.

pub mod algebra;
pub mod scalar;
pub mod vector;
pub mod vector2;
pub mod vector3;

pub use scalar::Scalar;
pub use vector::Vector;
pub use vector2::Vector2;
pub use vector3::Vector3;
