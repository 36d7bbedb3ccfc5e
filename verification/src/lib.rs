//! An interactive Game of Life simulator: the cellular-automaton engine, the
//! board that presents it, and the small view framework and dual-rate
//! scheduler that drive it.

pub mod conway;
pub mod engine;
