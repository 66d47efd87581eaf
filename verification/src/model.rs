//! What the graph of a package listing is, as functions on views.

use crate::data::{EdgeView, GraphView, NodeKind, NodeView, PackageView};
use vstd::prelude::*;

verus! {

/// The links that one record declares, in the order of its dependency list.
pub open spec fn links_of(p: PackageView) -> Seq<EdgeView> {
    Seq::new(p.depends.len(), |j: int| EdgeView { source: p.name, target: p.depends[j] })
}

/// The links that a listing declares: those of its first record, then those
/// of its second, and so on.
pub open spec fn declared_links(pkgs: Seq<PackageView>) -> Seq<EdgeView>
    decreases pkgs.len(),
{
    if pkgs.len() == 0 {
        Seq::empty()
    } else {
        declared_links(pkgs.drop_last()) + links_of(pkgs.last())
    }
}

/// How many dependencies a listing declares, each entry of each dependency
/// list counted.
pub open spec fn declaration_count(pkgs: Seq<PackageView>) -> nat
    decreases pkgs.len(),
{
    if pkgs.len() == 0 {
        0
    } else {
        declaration_count(pkgs.drop_last()) + pkgs.last().depends.len()
    }
}

/// The test that a link points at `name`.
pub open spec fn points_at(name: Seq<char>) -> spec_fn(EdgeView) -> bool {
    |e: EdgeView| e.target == name
}

/// How many of `links` point at `name`.
pub open spec fn in_degree(links: Seq<EdgeView>, name: Seq<char>) -> nat {
    links.filter(points_at(name)).len()
}

/// How many declared dependencies of a listing name `name`.
pub open spec fn hub_score(pkgs: Seq<PackageView>, name: Seq<char>) -> nat {
    in_degree(declared_links(pkgs), name)
}

/// Some record of the listing carries the name `name`.
pub open spec fn is_installed(pkgs: Seq<PackageView>, name: Seq<char>) -> bool {
    exists|i: int| 0 <= i < pkgs.len() && (#[trigger] pkgs[i]).name == name
}

/// No two records of the listing carry the same name.
pub open spec fn names_distinct(pkgs: Seq<PackageView>) -> bool {
    forall|i: int, j: int|
        0 <= i < j < pkgs.len() ==> (#[trigger] pkgs[i]).name != (#[trigger] pkgs[j]).name
}

/// The targets among `links` that no record of the listing carries, each
/// once, in the order in which `links` first names them.
pub open spec fn missing_names(pkgs: Seq<PackageView>, links: Seq<EdgeView>) -> Seq<Seq<char>>
    decreases links.len(),
{
    if links.len() == 0 {
        Seq::empty()
    } else {
        let earlier = missing_names(pkgs, links.drop_last());
        let name = links.last().target;
        if is_installed(pkgs, name) || earlier.contains(name) {
            earlier
        } else {
            earlier.push(name)
        }
    }
}

/// The label of a record's repository, `"unknown"` where it has none.
pub open spec fn repo_label(repo: Option<Seq<char>>) -> Seq<char> {
    match repo {
        Some(label) => label,
        None => "unknown"@,
    }
}

/// The node of the `i`-th record of a listing.
pub open spec fn package_node(pkgs: Seq<PackageView>, i: int) -> NodeView {
    NodeView {
        id: pkgs[i].name,
        kind: NodeKind::Installed,
        hub_score: hub_score(pkgs, pkgs[i].name),
        size_bytes: pkgs[i].installed_size,
        repo: repo_label(pkgs[i].repo),
    }
}

/// The placeholder node for a name that the listing depends on and does not
/// carry.
pub open spec fn placeholder_node(pkgs: Seq<PackageView>, name: Seq<char>) -> NodeView {
    NodeView {
        id: name,
        kind: NodeKind::Missing,
        hub_score: hub_score(pkgs, name),
        size_bytes: 0,
        repo: "ghost"@,
    }
}

/// The nodes of the listed packages, in listing order.
pub open spec fn package_nodes(pkgs: Seq<PackageView>) -> Seq<NodeView> {
    Seq::new(pkgs.len(), |i: int| package_node(pkgs, i))
}

/// The placeholder nodes that `links` call for: one for each of their missing
/// names, in the order of those names.
pub open spec fn placeholder_nodes(pkgs: Seq<PackageView>, links: Seq<EdgeView>) -> Seq<NodeView> {
    let names = missing_names(pkgs, links);
    Seq::new(names.len(), |k: int| placeholder_node(pkgs, names[k]))
}

/// The graph of a listing: a node for every record, then a placeholder for
/// every missing dependency, and a link for every declaration.
pub open spec fn graph_of(pkgs: Seq<PackageView>) -> GraphView {
    let links = declared_links(pkgs);
    GraphView { nodes: package_nodes(pkgs) + placeholder_nodes(pkgs, links), links }
}

impl GraphView {
    /// Some node has the identity `name`.
    pub open spec fn has_node(self, name: Seq<char>) -> bool {
        exists|k: int| 0 <= k < self.nodes.len() && (#[trigger] self.nodes[k]).id == name
    }

    /// Both ends of every link are nodes of the graph.
    pub open spec fn covers_links(self) -> bool {
        forall|k: int|
            0 <= k < self.links.len() ==> self.has_node((#[trigger] self.links[k]).source)
                && self.has_node(self.links[k].target)
    }

    /// No two nodes share an identity.
    pub open spec fn ids_distinct(self) -> bool {
        forall|a: int, b: int|
            0 <= a < b < self.nodes.len() ==> (#[trigger] self.nodes[a]).id != (
            #[trigger] self.nodes[b]).id
    }

    /// Every placeholder has size 0 and the repository label `"ghost"`.
    pub open spec fn placeholders_are_bare(self) -> bool {
        forall|k: int|
            0 <= k < self.nodes.len() && (#[trigger] self.nodes[k]).kind == NodeKind::Missing
                ==> self.nodes[k].size_bytes == 0 && self.nodes[k].repo == "ghost"@
    }

    /// Every node's hub score is the number of links that point at it.
    pub open spec fn hub_scores_are_in_degrees(self) -> bool {
        forall|k: int|
            0 <= k < self.nodes.len() ==> (#[trigger] self.nodes[k]).hub_score == in_degree(
                self.links,
                self.nodes[k].id,
            )
    }
}

} // verus!
