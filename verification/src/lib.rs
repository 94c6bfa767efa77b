//! The operator layer of a data-processing worker: the operators that run
//! the transforms of a bundle, the routing of elements between them, and
//! the construction of operators from a bundle's description.
pub mod elements;
pub mod graph;
pub mod laws;
pub mod operators;
pub mod payload;
pub mod proto;
pub mod registry;
pub mod semantics;
pub mod text;
pub mod transforms;
pub mod urns;
