//! The dependency graph of an installed package set.
//!
//! A package database lists packages, each with its installed size, the
//! repository it came from and the names it depends on. [`build_graph`] turns
//! such a listing into a graph: one node per package, one placeholder node for
//! every dependency that names no listed package, and one link per declared
//! dependency. What a node's drawn size is computed from (its installed size and
//! how many declarations name it) is part of the node.

pub mod builder;
pub mod data;
pub mod laws;
pub mod model;

pub use builder::build_graph;
pub use data::{Edge, GraphData, Node, NodeKind, PackageRecord};
