//! A fixed-width numeric constant that is either unsigned or signed, with
//! the arithmetic, bitwise, shift, parsing and rendering operations that an
//! instruction encoder needs on immediates and register fields.

pub mod base;
