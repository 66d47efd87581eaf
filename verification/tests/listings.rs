use package_galaxy::{build_graph, Edge, GraphData, Node, NodeKind, PackageRecord};

fn record(name: &str, installed_size: u64, repo: Option<&str>, depends: &[&str]) -> PackageRecord {
    PackageRecord {
        name: name.to_string(),
        installed_size,
        repo: repo.map(|label| label.to_string()),
        depends: depends.iter().map(|d| d.to_string()).collect(),
    }
}

fn installed(id: &str, hub_score: u64, size_bytes: u64, repo: &str) -> Node {
    Node {
        id: id.to_string(),
        kind: NodeKind::Installed,
        hub_score,
        size_bytes,
        repo: repo.to_string(),
    }
}

fn placeholder(id: &str, hub_score: u64) -> Node {
    Node {
        id: id.to_string(),
        kind: NodeKind::Missing,
        hub_score,
        size_bytes: 0,
        repo: "ghost".to_string(),
    }
}

fn link(source: &str, target: &str) -> Edge {
    Edge { source: source.to_string(), target: target.to_string() }
}

#[test]
fn empty_listing_gives_empty_graph() {
    let graph = build_graph(&Vec::new());
    assert_eq!(graph, GraphData { nodes: vec![], links: vec![] });
}

#[test]
fn single_package_without_dependencies() {
    let graph = build_graph(&vec![record("foo", 100, Some("local"), &[])]);
    assert_eq!(graph.nodes, vec![installed("foo", 0, 100, "local")]);
    assert!(graph.links.is_empty());
}

#[test]
fn dependency_on_a_missing_package_gets_a_placeholder() {
    let graph = build_graph(&vec![record("foo", 100, Some("local"), &["bar"])]);
    assert_eq!(graph.nodes.len(), 2);
    assert_eq!(graph.nodes[0], installed("foo", 0, 100, "local"));
    assert_eq!(graph.nodes[1].id, "bar");
    assert_eq!(graph.nodes[1].kind, NodeKind::Missing);
    assert_eq!(graph.nodes[1].size_bytes, 0);
    assert_eq!(graph.nodes[1].repo, "ghost");
    assert_eq!(graph.nodes[1].hub_score, 1);
    assert_eq!(graph.links, vec![link("foo", "bar")]);
}

#[test]
fn shared_missing_dependency_gets_one_placeholder() {
    let graph = build_graph(&vec![
        record("foo", 10, Some("local"), &["bar"]),
        record("baz", 20, Some("local"), &["bar"]),
    ]);
    assert_eq!(
        graph.nodes,
        vec![
            installed("foo", 0, 10, "local"),
            installed("baz", 0, 20, "local"),
            placeholder("bar", 2),
        ]
    );
    assert_eq!(graph.links, vec![link("foo", "bar"), link("baz", "bar")]);
    let placeholders = graph.nodes.iter().filter(|n| n.id == "bar").count();
    assert_eq!(placeholders, 1);
    let into_bar = graph.links.iter().filter(|e| e.target == "bar").count();
    assert_eq!(into_bar, 2);
}

#[test]
fn empty_package_with_twenty_five_dependents() {
    let mut packages = vec![record("meta", 0, Some("local"), &[])];
    for i in 0..25 {
        packages.push(record(&format!("user{}", i), 1000, Some("local"), &["meta"]));
    }
    let graph = build_graph(&packages);
    assert_eq!(graph.nodes.len(), 26);
    assert_eq!(graph.nodes[0], installed("meta", 25, 0, "local"));
    assert_eq!(graph.links.len(), 25);
    for (i, edge) in graph.links.iter().enumerate() {
        assert_eq!(*edge, link(&format!("user{}", i), "meta"));
    }
    for node in &graph.nodes[1..] {
        assert_eq!(node.kind, NodeKind::Installed);
        assert_eq!(node.hub_score, 0);
        assert_eq!(node.size_bytes, 1000);
    }
}

#[test]
fn self_dependency_is_kept_as_a_loop() {
    let graph = build_graph(&vec![record("foo", 5, Some("local"), &["foo"])]);
    assert_eq!(graph.nodes, vec![installed("foo", 1, 5, "local")]);
    assert_eq!(graph.links, vec![link("foo", "foo")]);
}

#[test]
fn repeated_declaration_gives_repeated_links() {
    let graph = build_graph(&vec![
        record("foo", 5, Some("local"), &["bar", "bar"]),
        record("bar", 7, Some("local"), &[]),
    ]);
    assert_eq!(
        graph.nodes,
        vec![installed("foo", 0, 5, "local"), installed("bar", 2, 7, "local")]
    );
    assert_eq!(graph.links, vec![link("foo", "bar"), link("foo", "bar")]);
}

#[test]
fn repeated_missing_dependency_of_one_package_gets_one_placeholder() {
    let graph = build_graph(&vec![record("foo", 5, Some("local"), &["gone", "gone"])]);
    assert_eq!(graph.nodes, vec![installed("foo", 0, 5, "local"), placeholder("gone", 2)]);
    assert_eq!(graph.links, vec![link("foo", "gone"), link("foo", "gone")]);
}

#[test]
fn package_without_repository_is_labelled_unknown() {
    let graph = build_graph(&vec![record("foo", 5, None, &[])]);
    assert_eq!(graph.nodes, vec![installed("foo", 0, 5, "unknown")]);
}

#[test]
fn hub_score_counts_declarations_of_later_packages() {
    let graph = build_graph(&vec![
        record("libc", 4096, Some("core"), &[]),
        record("a", 1, Some("extra"), &["libc"]),
        record("b", 2, Some("extra"), &["libc", "a"]),
        record("c", 3, None, &["libc", "a", "b"]),
    ]);
    assert_eq!(
        graph.nodes,
        vec![
            installed("libc", 3, 4096, "core"),
            installed("a", 2, 1, "extra"),
            installed("b", 1, 2, "extra"),
            installed("c", 0, 3, "unknown"),
        ]
    );
    assert_eq!(
        graph.links,
        vec![
            link("a", "libc"),
            link("b", "libc"),
            link("b", "a"),
            link("c", "libc"),
            link("c", "a"),
            link("c", "b"),
        ]
    );
}

#[test]
fn dependency_on_a_package_listed_later_gets_no_placeholder() {
    let graph = build_graph(&vec![
        record("app", 9, Some("local"), &["lib"]),
        record("lib", 8, Some("local"), &[]),
    ]);
    assert_eq!(
        graph.nodes,
        vec![installed("app", 0, 9, "local"), installed("lib", 1, 8, "local")]
    );
    assert_eq!(graph.links, vec![link("app", "lib")]);
}

#[test]
fn placeholders_follow_packages_in_order_of_first_mention() {
    let graph = build_graph(&vec![
        record("one", 1, Some("local"), &["zeta", "two", "alpha"]),
        record("two", 2, Some("local"), &["alpha", "mid", "zeta", "one"]),
    ]);
    assert_eq!(
        graph.nodes,
        vec![
            installed("one", 1, 1, "local"),
            installed("two", 1, 2, "local"),
            placeholder("zeta", 2),
            placeholder("alpha", 2),
            placeholder("mid", 1),
        ]
    );
    assert_eq!(
        graph.links,
        vec![
            link("one", "zeta"),
            link("one", "two"),
            link("one", "alpha"),
            link("two", "alpha"),
            link("two", "mid"),
            link("two", "zeta"),
            link("two", "one"),
        ]
    );
}

#[test]
fn installed_package_from_a_repository_called_ghost_stays_installed() {
    let graph = build_graph(&vec![record("foo", 5, Some("ghost"), &["bar"])]);
    assert_eq!(graph.nodes[0], installed("foo", 0, 5, "ghost"));
    assert_eq!(graph.nodes[1], placeholder("bar", 1));
}

#[test]
fn names_are_compared_exactly() {
    let graph = build_graph(&vec![
        record("foo", 5, Some("local"), &["Foo", "foo ", "foo>=1"]),
    ]);
    assert_eq!(
        graph.nodes,
        vec![
            installed("foo", 0, 5, "local"),
            placeholder("Foo", 1),
            placeholder("foo ", 1),
            placeholder("foo>=1", 1),
        ]
    );
}

#[test]
fn largest_installed_size_is_kept() {
    let graph = build_graph(&vec![record("big", u64::MAX, Some("local"), &[])]);
    assert_eq!(graph.nodes, vec![installed("big", 0, u64::MAX, "local")]);
}

#[test]
fn records_that_share_a_name_each_get_a_node() {
    let graph = build_graph(&vec![
        record("dup", 1, Some("a"), &["dup"]),
        record("dup", 2, Some("b"), &[]),
    ]);
    assert_eq!(
        graph.nodes,
        vec![installed("dup", 1, 1, "a"), installed("dup", 1, 2, "b")]
    );
    assert_eq!(graph.links, vec![link("dup", "dup")]);
}
