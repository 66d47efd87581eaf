//! The records that go in and the graph that comes out, each with its view.
//!
//! Every type here has a view that holds its strings as character sequences
//! and its numbers as naturals. Contracts are stated over the views.

use vstd::prelude::*;

verus! {

/// One installed package, as the package database lists it.
///
/// `depends` holds bare package names: a requirement on a version or a
/// description that the database attaches to a dependency is not part of the
/// name, and whoever fills the record leaves it out. The names are taken as
/// they stand, and a name that no record carries gets a placeholder node.
#[derive(Clone, Debug, PartialEq, Eq)]
pub struct PackageRecord {
    /// The name that identifies the package.
    pub name: String,
    /// The installed size in bytes.
    pub installed_size: u64,
    /// The repository the package came from, where the database knows it.
    pub repo: Option<String>,
    /// The names of the packages this one depends on, in declaration order.
    pub depends: Vec<String>,
}

/// A [`PackageRecord`] as plain mathematical values.
pub struct PackageView {
    pub name: Seq<char>,
    pub installed_size: nat,
    pub repo: Option<Seq<char>>,
    pub depends: Seq<Seq<char>>,
}

impl View for PackageRecord {
    type V = PackageView;

    open spec fn view(&self) -> PackageView {
        PackageView {
            name: self.name@,
            installed_size: self.installed_size as nat,
            repo: self.repo.deep_view(),
            depends: self.depends.deep_view(),
        }
    }
}

impl DeepView for PackageRecord {
    type V = PackageView;

    open spec fn deep_view(&self) -> PackageView {
        self@
    }
}

/// Whether a node stands for a listed package or for a name that is only
/// depended on.
#[derive(Clone, Copy, Debug, PartialEq, Eq)]
pub enum NodeKind {
    /// A package of the listing.
    Installed,
    /// A placeholder for a dependency that names no listed package.
    Missing,
}

/// A node of the graph.
///
/// The size at which a node is drawn is a function of `kind`, `size_bytes`
/// and `hub_score`; these three are kept so that a renderer can compute it.
#[derive(Clone, Debug, PartialEq, Eq)]
pub struct Node {
    /// The package name; the node's identity.
    pub id: String,
    /// Listed package or placeholder.
    pub kind: NodeKind,
    /// How many declared dependencies name this node.
    pub hub_score: u64,
    /// The installed size in bytes; 0 for a placeholder.
    pub size_bytes: u64,
    /// The repository label; `"ghost"` for a placeholder, `"unknown"` for a
    /// package whose repository the database does not know.
    pub repo: String,
}

/// A [`Node`] as plain mathematical values.
pub struct NodeView {
    pub id: Seq<char>,
    pub kind: NodeKind,
    pub hub_score: nat,
    pub size_bytes: nat,
    pub repo: Seq<char>,
}

impl View for Node {
    type V = NodeView;

    open spec fn view(&self) -> NodeView {
        NodeView {
            id: self.id@,
            kind: self.kind,
            hub_score: self.hub_score as nat,
            size_bytes: self.size_bytes as nat,
            repo: self.repo@,
        }
    }
}

impl DeepView for Node {
    type V = NodeView;

    open spec fn deep_view(&self) -> NodeView {
        self@
    }
}

/// A dependency: `source` depends on `target`.
#[derive(Clone, Debug, PartialEq, Eq)]
pub struct Edge {
    /// The dependent package.
    pub source: String,
    /// The package it depends on.
    pub target: String,
}

/// An [`Edge`] as a pair of character sequences.
pub struct EdgeView {
    pub source: Seq<char>,
    pub target: Seq<char>,
}

impl View for Edge {
    type V = EdgeView;

    open spec fn view(&self) -> EdgeView {
        EdgeView { source: self.source@, target: self.target@ }
    }
}

impl DeepView for Edge {
    type V = EdgeView;

    open spec fn deep_view(&self) -> EdgeView {
        self@
    }
}

/// The graph: nodes and the links between them.
#[derive(Clone, Debug, PartialEq, Eq)]
pub struct GraphData {
    /// The listed packages in listing order, then the placeholders in the
    /// order in which the dependency lists first name them.
    pub nodes: Vec<Node>,
    /// One link per declared dependency, in declaration order.
    pub links: Vec<Edge>,
}

/// A [`GraphData`] as sequences of node and edge views.
pub struct GraphView {
    pub nodes: Seq<NodeView>,
    pub links: Seq<EdgeView>,
}

impl View for GraphData {
    type V = GraphView;

    open spec fn view(&self) -> GraphView {
        GraphView { nodes: self.nodes.deep_view(), links: self.links.deep_view() }
    }
}

impl DeepView for GraphData {
    type V = GraphView;

    open spec fn deep_view(&self) -> GraphView {
        self@
    }
}

} // verus!
