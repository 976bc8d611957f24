//! Small verified building blocks for Rust's basic types: integer
//! arithmetic with its overflow modes, integer division, type sizes,
//! string ownership and growth, tuples, arrays and vectors.
pub mod growable;
pub mod scalars;
pub mod stack_heap;
pub mod compound;
pub mod variables;
