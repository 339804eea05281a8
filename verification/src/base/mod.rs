//! The value layer: the constant type and the field descriptor it consumes.

pub mod arith;
pub mod bits;
pub mod convert;
pub mod field;
pub mod laws;
pub mod ops;
pub mod order;
pub mod parse;
pub mod render;

pub use arith::Const;
pub use field::FieldSelector;
