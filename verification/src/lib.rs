//! A behavior-tree evaluation engine: composable control-flow nodes
//! (select, sequence, invert, repeat-while) that drive caller-supplied
//! leaf actions against a mutable state value.

pub mod evaluator;
pub mod laws;
pub mod semantics;
pub mod tree;
