//! Building the graph of a package listing.

use crate::data::{Edge, EdgeView, GraphData, Node, NodeKind, PackageRecord, PackageView};
use crate::laws::{
    lemma_graph_covers_links, lemma_graph_hub_scores, lemma_graph_ids_distinct,
    lemma_graph_placeholders, lemma_one_link_per_declaration,
};
use crate::model::{
    declaration_count, declared_links, placeholder_node, placeholder_nodes, graph_of, in_degree,
    is_installed, links_of, missing_names, names_distinct, package_node, package_nodes, points_at,
};
use vstd::hash_map::StringHashMap;
use vstd::hash_set::StringHashSet;
use vstd::prelude::*;

verus! {

/// `counts` holds every name that `links` point at, with the number of links
/// that do, and no other name.
spec fn tallies(counts: Map<Seq<char>, u64>, links: Seq<EdgeView>) -> bool {
    forall|name: Seq<char>|
        #![trigger counts.contains_key(name)]
        #![trigger in_degree(links, name)]
        (counts.contains_key(name) <==> in_degree(links, name) > 0) && (counts.contains_key(name)
            ==> counts[name] == in_degree(links, name))
}

/// No in-degree exceeds the number of links.
proof fn lemma_in_degree_bound(links: Seq<EdgeView>, name: Seq<char>)
    ensures
        in_degree(links, name) <= links.len(),
{
    links.lemma_filter_len(points_at(name));
}

/// One more link raises the in-degree of its target by one and leaves every
/// other in-degree as it was.
proof fn lemma_in_degree_push(links: Seq<EdgeView>, e: EdgeView, name: Seq<char>)
    ensures
        in_degree(links.push(e), name) == in_degree(links, name) + if e.target == name {
            1nat
        } else {
            0nat
        },
{
    links.lemma_filter_push(e, points_at(name));
}

/// The links of the first `i + 1` records are those of the first `i`, then
/// those of record `i`.
proof fn lemma_declared_links_step(pkgs: Seq<PackageView>, i: int)
    requires
        0 <= i < pkgs.len(),
    ensures
        declared_links(pkgs.take(i + 1)) == declared_links(pkgs.take(i)) + links_of(pkgs[i]),
{
    assert(pkgs.take(i + 1).drop_last() =~= pkgs.take(i));
}

/// The names of the first `i + 1` records are those of the first `i` and
/// that of record `i`.
proof fn lemma_installed_step(pkgs: Seq<PackageView>, i: int, name: Seq<char>)
    requires
        0 <= i < pkgs.len(),
    ensures
        is_installed(pkgs.take(i + 1), name) <==> is_installed(pkgs.take(i), name) || pkgs[i].name
            == name,
{
    let shorter = pkgs.take(i);
    let longer = pkgs.take(i + 1);
    if is_installed(longer, name) {
        let k = choose|k: int| 0 <= k < longer.len() && (#[trigger] longer[k]).name == name;
        if k < i {
            assert(shorter[k].name == name);
        }
    }
    if is_installed(shorter, name) {
        let k = choose|k: int| 0 <= k < shorter.len() && (#[trigger] shorter[k]).name == name;
        assert(longer[k].name == name);
    }
    if pkgs[i].name == name {
        assert(longer[i].name == name);
    }
}

/// The missing names of the first `k + 1` links are those of the first `k`,
/// with the target of link `k` added if it is new and not installed.
proof fn lemma_missing_names_step(pkgs: Seq<PackageView>, links: Seq<EdgeView>, k: int)
    requires
        0 <= k < links.len(),
    ensures
        missing_names(pkgs, links.take(k + 1)) == if is_installed(pkgs, links[k].target)
            || missing_names(pkgs, links.take(k)).contains(links[k].target) {
            missing_names(pkgs, links.take(k))
        } else {
            missing_names(pkgs, links.take(k)).push(links[k].target)
        },
{
    assert(links.take(k + 1).drop_last() =~= links.take(k));
}

/// First pass: one link per declared dependency, and for every name the
/// number of declarations that name it.
fn link_and_tally(packages: &Vec<PackageRecord>) -> (out: (Vec<Edge>, StringHashMap<u64>))
    ensures
        out.0.deep_view() == declared_links(packages.deep_view()),
        tallies(out.1@, declared_links(packages.deep_view())),
{
    let ghost pkgs = packages.deep_view();
    let mut links: Vec<Edge> = Vec::new();
    let mut counts: StringHashMap<u64> = StringHashMap::new();
    proof {
        assert(links.deep_view() =~= declared_links(pkgs.take(0)));
        assert forall|name: Seq<char>| in_degree(links.deep_view(), name) == 0 by {
            lemma_in_degree_bound(links.deep_view(), name);
        }
    }
    for i in 0..packages.len()
        invariant
            pkgs == packages.deep_view(),
            links.deep_view() == declared_links(pkgs.take(i as int)),
            tallies(counts@, links.deep_view()),
    {
        let package = &packages[i];
        let ghost before = links.deep_view();
        assert(before + links_of(pkgs[i as int]).take(0) =~= before);
        for j in 0..package.depends.len()
            invariant
                pkgs == packages.deep_view(),
                i < packages.len(),
                *package == packages[i as int],
                links.deep_view() == before + links_of(pkgs[i as int]).take(j as int),
                tallies(counts@, links.deep_view()),
        {
            let ghost earlier = links.deep_view();
            let target = &package.depends[j];
            let so_far = match counts.get(target.as_str()) {
                Some(count) => *count,
                None => 0,
            };
            let link = Edge { source: package.name.clone(), target: target.clone() };
            let ghost added = link@;
            links.push(link);
            let total = links.len();
            proof {
                assert(added == links_of(pkgs[i as int])[j as int]);
                assert(links.deep_view() =~= earlier.push(added));
                assert(links.deep_view() =~= before + links_of(pkgs[i as int]).take(j + 1));
                lemma_in_degree_bound(earlier, target@);
                assert(so_far < total);
                assert forall|name: Seq<char>|
                    in_degree(earlier.push(added), name) == in_degree(earlier, name) + if name
                        == target@ {
                        1nat
                    } else {
                        0nat
                    } by {
                    lemma_in_degree_push(earlier, added, name);
                }
            }
            counts.insert(target.clone(), so_far + 1);
        }
        proof {
            assert(links_of(pkgs[i as int]).take(package.depends.len() as int) =~= links_of(
                pkgs[i as int],
            ));
            lemma_declared_links_step(pkgs, i as int);
        }
    }
    proof {
        assert(pkgs.take(packages.len() as int) =~= pkgs);
    }
    (links, counts)
}

/// The number that a tally holds for `name`: 0 where it holds none.
fn tally_of(counts: &StringHashMap<u64>, name: &str, Ghost(links): Ghost<Seq<EdgeView>>) -> (n: u64)
    requires
        tallies(counts@, links),
    ensures
        n == in_degree(links, name@),
{
    match counts.get(name) {
        Some(count) => *count,
        None => 0,
    }
}

/// Second pass: the node of every listed package, and the set of their names.
fn installed_nodes(packages: &Vec<PackageRecord>, counts: &StringHashMap<u64>) -> (out: (
    Vec<Node>,
    StringHashSet,
))
    requires
        tallies(counts@, declared_links(packages.deep_view())),
    ensures
        out.0.deep_view() == package_nodes(packages.deep_view()),
        forall|name: Seq<char>|
            #[trigger] out.1@.contains(name) <==> is_installed(packages.deep_view(), name),
{
    let ghost pkgs = packages.deep_view();
    let mut nodes: Vec<Node> = Vec::new();
    let mut seen = StringHashSet::new();
    assert(nodes.deep_view() =~= package_nodes(pkgs).take(0));
    for i in 0..packages.len()
        invariant
            pkgs == packages.deep_view(),
            tallies(counts@, declared_links(pkgs)),
            nodes.deep_view() == package_nodes(pkgs).take(i as int),
            forall|name: Seq<char>|
                #[trigger] seen@.contains(name) <==> is_installed(pkgs.take(i as int), name),
    {
        let package = &packages[i];
        let ghost earlier = nodes.deep_view();
        let hub_score = tally_of(counts, package.name.as_str(), Ghost(declared_links(pkgs)));
        let repo = match &package.repo {
            Some(label) => label.clone(),
            None => "unknown".to_owned(),
        };
        let node = Node {
            id: package.name.clone(),
            kind: NodeKind::Installed,
            hub_score,
            size_bytes: package.installed_size,
            repo,
        };
        assert(node@ == package_node(pkgs, i as int));
        nodes.push(node);
        seen.insert(package.name.clone());
        proof {
            assert(nodes.deep_view() =~= earlier.push(package_node(pkgs, i as int)));
            assert(nodes.deep_view() =~= package_nodes(pkgs).take(i + 1));
            assert forall|name: Seq<char>|
                #[trigger] seen@.contains(name) <==> is_installed(pkgs.take(i + 1), name) by {
                lemma_installed_step(pkgs, i as int, name);
            }
        }
    }
    assert(pkgs.take(packages.len() as int) =~= pkgs);
    assert(package_nodes(pkgs).take(packages.len() as int) =~= package_nodes(pkgs));
    (nodes, seen)
}

/// Third pass: a placeholder for every link target that is neither a listed
/// package nor has a placeholder yet.
fn add_missing(
    nodes: Vec<Node>,
    seen: StringHashSet,
    links: &Vec<Edge>,
    counts: &StringHashMap<u64>,
    Ghost(pkgs): Ghost<Seq<PackageView>>,
) -> (all: Vec<Node>)
    requires
        links.deep_view() == declared_links(pkgs),
        tallies(counts@, declared_links(pkgs)),
        nodes.deep_view() == package_nodes(pkgs),
        forall|name: Seq<char>| #[trigger] seen@.contains(name) <==> is_installed(pkgs, name),
    ensures
        all.deep_view() == package_nodes(pkgs) + placeholder_nodes(pkgs, declared_links(pkgs)),
{
    let mut nodes = nodes;
    let mut seen = seen;
    let ghost declared = declared_links(pkgs);
    assert(nodes.deep_view() =~= package_nodes(pkgs) + placeholder_nodes(pkgs, declared.take(0)));
    for k in 0..links.len()
        invariant
            links.deep_view() == declared,
            declared == declared_links(pkgs),
            tallies(counts@, declared),
            nodes.deep_view() == package_nodes(pkgs) + placeholder_nodes(pkgs, declared.take(k as int)),
            forall|name: Seq<char>|
                #[trigger] seen@.contains(name) <==> is_installed(pkgs, name) || missing_names(
                    pkgs,
                    declared.take(k as int),
                ).contains(name),
    {
        let target = &links[k].target;
        let ghost earlier = nodes.deep_view();
        let ghost names = missing_names(pkgs, declared.take(k as int));
        proof {
            assert(target@ == declared[k as int].target);
            lemma_missing_names_step(pkgs, declared, k as int);
        }
        if !seen.contains(target.as_str()) {
            let hub_score = tally_of(counts, target.as_str(), Ghost(declared));
            let node = Node {
                id: target.clone(),
                kind: NodeKind::Missing,
                hub_score,
                size_bytes: 0,
                repo: "ghost".to_owned(),
            };
            assert(node@ == placeholder_node(pkgs, target@));
            nodes.push(node);
            seen.insert(target.clone());
            proof {
                assert(nodes.deep_view() =~= earlier.push(placeholder_node(pkgs, target@)));
                assert(placeholder_nodes(pkgs, declared.take(k + 1)) =~= placeholder_nodes(
                    pkgs,
                    declared.take(k as int),
                ).push(placeholder_node(pkgs, target@)));
                assert(nodes.deep_view() =~= package_nodes(pkgs) + placeholder_nodes(
                    pkgs,
                    declared.take(k + 1),
                ));
                assert forall|name: Seq<char>|
                    #[trigger] seen@.contains(name) <==> is_installed(pkgs, name) || names.push(
                        target@,
                    ).contains(name) by {
                    if names.contains(name) {
                        let a = choose|a: int| 0 <= a < names.len() && names[a] == name;
                        assert(names.push(target@)[a] == name);
                    }
                    if name == target@ {
                        assert(names.push(target@)[names.len() as int] == name);
                    }
                }
            }
        }
    }
    assert(declared.take(links.len() as int) =~= declared);
    nodes
}

/// Builds the graph of a package listing.
///
/// The graph has one node per record, in listing order; after them one
/// placeholder for every dependency name that no record carries, in the order
/// in which the dependency lists first mention them; and one link per declared
/// dependency, record by record, repeated declarations and self-dependencies
/// included. Each node carries the number of declarations that name it.
pub fn build_graph(packages: &Vec<PackageRecord>) -> (graph: GraphData)
    ensures
        graph@ == graph_of(packages.deep_view()),
        graph.links.len() == declaration_count(packages.deep_view()),
        graph@.covers_links(),
        names_distinct(packages.deep_view()) ==> graph@.ids_distinct(),
        graph@.placeholders_are_bare(),
        graph@.hub_scores_are_in_degrees(),
{
    let (links, counts) = link_and_tally(packages);
    let (nodes, seen) = installed_nodes(packages, &counts);
    let nodes = add_missing(nodes, seen, &links, &counts, Ghost(packages.deep_view()));
    proof {
        let pkgs = packages.deep_view();
        lemma_one_link_per_declaration(pkgs);
        lemma_graph_covers_links(pkgs);
        lemma_graph_hub_scores(pkgs);
        lemma_graph_placeholders(pkgs);
        if names_distinct(pkgs) {
            lemma_graph_ids_distinct(pkgs);
        }
    }
    GraphData { nodes, links }
}

} // verus!
