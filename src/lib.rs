//! Semantic validation of a shader module: constants, types, global
//! variables, function bodies and entry points, together with the
//! control-flow uniformity analysis that legalises barriers.
mod bits;
pub mod ir;
pub mod analyzer;
pub mod function;
pub mod interface;
pub mod valid;
pub mod laws;
