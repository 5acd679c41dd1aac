use rusty_procgen_preflight::candidate::create_initial_candidate;
use rusty_procgen_preflight::model::{
    Candidate, Edge, EdgeKind, IntentGraph, Node, NodeKind, SeedIntent, TraversalKind,
};
use rusty_procgen_preflight::topology::{collect_tags, topology_fingerprint};

fn intent() -> SeedIntent {
    SeedIntent {
        kind: "rusty_procgen.seed_intent.v1".to_owned(),
        id: "demo".to_owned(),
        title: "Demo".to_owned(),
        target_dimension: "topology_graph".to_owned(),
        desired_patterns: Vec::new(),
        notes: Vec::new(),
    }
}

fn node(id: &str, kind: NodeKind, tags: &[&str]) -> Node {
    Node {
        id: id.to_owned(),
        kind,
        label: id.to_uppercase(),
        tags: tags.iter().map(|t| t.to_string()).collect(),
        grants_item: None,
    }
}

fn edge(
    id: &str,
    from: &str,
    to: &str,
    kind: EdgeKind,
    traversal: TraversalKind,
    item: Option<&str>,
    tags: &[&str],
) -> Edge {
    Edge {
        id: id.to_owned(),
        from: from.to_owned(),
        to: to.to_owned(),
        kind,
        traversal,
        required_item: item.map(|s| s.to_owned()),
        tags: tags.iter().map(|t| t.to_string()).collect(),
    }
}

fn three_room(reversed: bool, label_suffix: &str) -> Candidate {
    let mut c = create_initial_candidate(&intent(), 7);
    let mut nodes = vec![
        node("start", NodeKind::Start, &["entry", "critical"]),
        node("gate", NodeKind::Gate, &[]),
        node("goal", NodeKind::Goal, &["critical"]),
    ];
    let mut edges = vec![
        edge("e1", "start", "gate", EdgeKind::CriticalPath, TraversalKind::Locked, Some("key"), &["main", "lock"]),
        edge("e2", "gate", "goal", EdgeKind::Shortcut, TraversalKind::OneWayReturn, None, &[]),
        edge("e3", "start", "goal", EdgeKind::OptionalBranch, TraversalKind::Hidden, None, &["secret"]),
    ];
    for n in nodes.iter_mut() {
        n.label.push_str(label_suffix);
    }
    if reversed {
        nodes.reverse();
        edges.reverse();
    }
    c.graph = IntentGraph { nodes, edges };
    c
}

#[test]
fn initial_candidate_topology_fingerprint() {
    let c = create_initial_candidate(&intent(), 7);
    assert_eq!(topology_fingerprint(&c), "topology:3cdfdd6156f32032");
}

#[test]
fn fingerprint_counts_degrees_and_sorts_tags_and_lines() {
    assert_eq!(topology_fingerprint(&three_room(false, "")), "topology:7cd1809e4771b40f");
}

#[test]
fn fingerprint_ignores_order_and_labels() {
    let a = topology_fingerprint(&three_room(false, ""));
    assert_eq!(topology_fingerprint(&three_room(true, "")), a);
    assert_eq!(topology_fingerprint(&three_room(false, " renamed")), a);
}

#[test]
fn fingerprint_tells_traversal_apart() {
    let a = three_room(false, "");
    let mut b = three_room(false, "");
    b.graph.edges[1].traversal = TraversalKind::Open;
    assert_ne!(topology_fingerprint(&a), topology_fingerprint(&b));
}

#[test]
fn collect_tags_is_sorted_and_distinct() {
    assert_eq!(
        collect_tags(&three_room(false, "")),
        vec!["critical", "entry", "lock", "main", "secret"]
    );
    let c = create_initial_candidate(&intent(), 7);
    assert_eq!(collect_tags(&c), vec!["critical", "initial"]);
}
