//! What holds of the graph of every listing, proved over the model.

use crate::data::{EdgeView, NodeKind, PackageView};
use crate::model::{
    declaration_count, declared_links, graph_of, is_installed, missing_names, names_distinct,
};
use vstd::prelude::*;

verus! {

/// A listing declares as many links as its dependency lists have entries.
pub proof fn lemma_one_link_per_declaration(pkgs: Seq<PackageView>)
    ensures
        declared_links(pkgs).len() == declaration_count(pkgs),
    decreases pkgs.len(),
{
    if pkgs.len() > 0 {
        lemma_one_link_per_declaration(pkgs.drop_last());
    }
}

/// Dependency `j` of record `i` is the link that stands after all links of
/// the records before `i` and after `j` links of record `i`.
pub proof fn lemma_link_position(pkgs: Seq<PackageView>, i: int, j: int)
    requires
        0 <= i < pkgs.len(),
        0 <= j < pkgs[i].depends.len(),
    ensures
        declaration_count(pkgs.take(i)) + j < declared_links(pkgs).len(),
        declared_links(pkgs)[declaration_count(pkgs.take(i)) + j] == (EdgeView {
            source: pkgs[i].name,
            target: pkgs[i].depends[j],
        }),
    decreases pkgs.len(),
{
    let shorter = pkgs.drop_last();
    lemma_one_link_per_declaration(shorter);
    if i == pkgs.len() - 1 {
        assert(pkgs.take(i) =~= shorter);
    } else {
        lemma_link_position(shorter, i, j);
        assert(shorter.take(i) =~= pkgs.take(i));
    }
}

/// The source of every declared link is a listed package.
pub proof fn lemma_sources_installed(pkgs: Seq<PackageView>, k: int)
    requires
        0 <= k < declared_links(pkgs).len(),
    ensures
        is_installed(pkgs, declared_links(pkgs)[k].source),
    decreases pkgs.len(),
{
    let source = declared_links(pkgs)[k].source;
    let shorter = pkgs.drop_last();
    if k < declared_links(shorter).len() {
        lemma_sources_installed(shorter, k);
        let i = choose|i: int| 0 <= i < shorter.len() && (#[trigger] shorter[i]).name == source;
        assert(pkgs[i].name == source);
    } else {
        assert(pkgs[pkgs.len() - 1].name == source);
    }
}

/// A name is among the missing names of `links` exactly if some link points
/// at it and no record carries it.
pub proof fn lemma_missing_names_contains(
    pkgs: Seq<PackageView>,
    links: Seq<EdgeView>,
    name: Seq<char>,
)
    ensures
        missing_names(pkgs, links).contains(name) <==> !is_installed(pkgs, name) && exists|k: int|
            0 <= k < links.len() && (#[trigger] links[k]).target == name,
    decreases links.len(),
{
    let names = missing_names(pkgs, links);
    if links.len() > 0 {
        let shorter = links.drop_last();
        let earlier = missing_names(pkgs, shorter);
        lemma_missing_names_contains(pkgs, shorter, name);
        if names.contains(name) {
            let a = choose|a: int| 0 <= a < names.len() && names[a] == name;
            if a < earlier.len() {
                assert(earlier[a] == name);
                let k = choose|k: int| 0 <= k < shorter.len() && (#[trigger] shorter[k]).target == name;
                assert(links[k].target == name);
            } else {
                assert(links[links.len() - 1].target == name);
            }
        }
        if !is_installed(pkgs, name) && exists|k: int|
            0 <= k < links.len() && (#[trigger] links[k]).target == name {
            let k = choose|k: int| 0 <= k < links.len() && (#[trigger] links[k]).target == name;
            if k < shorter.len() {
                assert(shorter[k].target == name);
                let a = choose|a: int| 0 <= a < earlier.len() && earlier[a] == name;
                assert(names[a] == name);
            } else if !earlier.contains(name) {
                assert(names[names.len() - 1] == name);
            } else {
                let a = choose|a: int| 0 <= a < earlier.len() && earlier[a] == name;
                assert(names[a] == name);
            }
        }
    }
}

/// No name occurs twice among the missing names.
pub proof fn lemma_missing_names_distinct(pkgs: Seq<PackageView>, links: Seq<EdgeView>)
    ensures
        missing_names(pkgs, links).no_duplicates(),
    decreases links.len(),
{
    if links.len() > 0 {
        lemma_missing_names_distinct(pkgs, links.drop_last());
    }
}

/// Of two missing names, the one that comes first is the one that the links
/// mention first: some link points at it before any link points at the other.
pub proof fn lemma_missing_names_in_order_of_mention(
    pkgs: Seq<PackageView>,
    links: Seq<EdgeView>,
    a: int,
    b: int,
)
    requires
        0 <= a < b < missing_names(pkgs, links).len(),
    ensures
        exists|k: int|
            0 <= k < links.len() && (#[trigger] links[k]).target == missing_names(pkgs, links)[a]
                && forall|j: int|
                0 <= j <= k ==> (#[trigger] links[j]).target != missing_names(pkgs, links)[b],
    decreases links.len(),
{
    let names = missing_names(pkgs, links);
    let shorter = links.drop_last();
    let earlier = missing_names(pkgs, shorter);
    if b < earlier.len() {
        lemma_missing_names_in_order_of_mention(pkgs, shorter, a, b);
        let k = choose|k: int|
            0 <= k < shorter.len() && (#[trigger] shorter[k]).target == earlier[a] && forall|j: int|
                0 <= j <= k ==> (#[trigger] shorter[j]).target != earlier[b];
        assert(links[k].target == names[a]);
        assert forall|j: int| 0 <= j <= k implies (#[trigger] links[j]).target != names[b] by {
            assert(shorter[j].target != earlier[b]);
        }
    } else {
        assert(earlier.contains(earlier[a]));
        lemma_missing_names_contains(pkgs, shorter, names[a]);
        lemma_missing_names_contains(pkgs, shorter, names[b]);
        let k = choose|k: int| 0 <= k < shorter.len() && (#[trigger] shorter[k]).target == names[a];
        assert(links[k].target == names[a]);
        assert forall|j: int| 0 <= j <= k implies (#[trigger] links[j]).target != names[b] by {
            assert(shorter[j].target == links[j].target);
        }
    }
}

/// Both ends of every link of a listing's graph are nodes of that graph.
pub proof fn lemma_graph_covers_links(pkgs: Seq<PackageView>)
    ensures
        graph_of(pkgs).covers_links(),
{
    let graph = graph_of(pkgs);
    let links = declared_links(pkgs);
    let names = missing_names(pkgs, links);
    assert forall|name: Seq<char>| is_installed(pkgs, name) implies graph.has_node(name) by {
        let i = choose|i: int| 0 <= i < pkgs.len() && (#[trigger] pkgs[i]).name == name;
        assert(graph.nodes[i].id == name);
    }
    assert forall|k: int| 0 <= k < graph.links.len() implies graph.has_node(
        (#[trigger] graph.links[k]).source,
    ) && graph.has_node(graph.links[k].target) by {
        let target = links[k].target;
        lemma_sources_installed(pkgs, k);
        if !is_installed(pkgs, target) {
            lemma_missing_names_contains(pkgs, links, target);
            let a = choose|a: int| 0 <= a < names.len() && names[a] == target;
            assert(graph.nodes[pkgs.len() + a].id == target);
        }
    }
}

/// Where no two records share a name, no two nodes of the graph share an
/// identity.
pub proof fn lemma_graph_ids_distinct(pkgs: Seq<PackageView>)
    requires
        names_distinct(pkgs),
    ensures
        graph_of(pkgs).ids_distinct(),
{
    let graph = graph_of(pkgs);
    let links = declared_links(pkgs);
    let names = missing_names(pkgs, links);
    lemma_missing_names_distinct(pkgs, links);
    assert forall|a: int, b: int| 0 <= a < b < graph.nodes.len() implies (
    #[trigger] graph.nodes[a]).id != (#[trigger] graph.nodes[b]).id by {
        if b < pkgs.len() {
            assert(pkgs[a].name != pkgs[b].name);
        } else if a < pkgs.len() {
            let name = names[b - pkgs.len()];
            assert(names.contains(name));
            lemma_missing_names_contains(pkgs, links, name);
            assert(pkgs[a].name != name);
        } else {
            assert(names[a - pkgs.len()] != names[b - pkgs.len()]);
        }
    }
}

/// In the graph of a listing, every node's hub score is the number of links
/// that point at it.
pub proof fn lemma_graph_hub_scores(pkgs: Seq<PackageView>)
    ensures
        graph_of(pkgs).hub_scores_are_in_degrees(),
{
}

/// In the graph of a listing, the records' nodes come first and the
/// placeholders after them; a node is a placeholder exactly if no record
/// carries its name; and every placeholder has size 0 and the label `"ghost"`.
pub proof fn lemma_graph_placeholders(pkgs: Seq<PackageView>)
    ensures
        graph_of(pkgs).placeholders_are_bare(),
        forall|k: int|
            0 <= k < graph_of(pkgs).nodes.len() ==> ((#[trigger] graph_of(pkgs).nodes[k]).kind
                == NodeKind::Missing <==> k >= pkgs.len()),
        forall|k: int|
            0 <= k < graph_of(pkgs).nodes.len() ==> ((#[trigger] graph_of(pkgs).nodes[k]).kind
                == NodeKind::Missing <==> !is_installed(pkgs, graph_of(pkgs).nodes[k].id)),
{
    let graph = graph_of(pkgs);
    let links = declared_links(pkgs);
    let names = missing_names(pkgs, links);
    assert forall|k: int| 0 <= k < graph.nodes.len() implies ((#[trigger] graph.nodes[k]).kind
        == NodeKind::Missing <==> !is_installed(pkgs, graph.nodes[k].id)) by {
        if k < pkgs.len() {
            assert(pkgs[k].name == graph.nodes[k].id);
        } else {
            let name = names[k - pkgs.len()];
            assert(names.contains(name));
            lemma_missing_names_contains(pkgs, links, name);
        }
    }
}

} // verus!
