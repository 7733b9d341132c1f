//! Bounds-checked reading of binary font tables, with a model of the
//! glyph-variations (`gvar`) table: shared tuples, per-glyph variation data,
//! packed point numbers, packed deltas, and the per-tuple scalar computation
//! over normalized axis coordinates.

pub mod codegen;
pub mod fixed;
pub mod font_data;
pub mod gvar;
pub mod point;
pub mod scaler;
pub mod variations;
