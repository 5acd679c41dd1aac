use rusty_procgen_preflight::candidate::create_initial_candidate;
use rusty_procgen_preflight::flow::{edge_open_for_items, source_reachable_nodes};
use rusty_procgen_preflight::model::{
    Candidate, Edge, EdgeKind, IntentGraph, Node, NodeKind, SeedIntent, TraversalKind,
};

fn intent() -> SeedIntent {
    SeedIntent {
        kind: "rusty_procgen.seed_intent.v1".to_owned(),
        id: "demo".to_owned(),
        title: "Demo".to_owned(),
        target_dimension: "topology_graph".to_owned(),
        desired_patterns: Vec::new(),
        notes: Vec::new(),
    }
}

fn node(id: &str, kind: NodeKind, grants: Option<&str>) -> Node {
    Node {
        id: id.to_owned(),
        kind,
        label: id.to_owned(),
        tags: Vec::new(),
        grants_item: grants.map(|s| s.to_owned()),
    }
}

fn edge(id: &str, from: &str, to: &str, item: Option<&str>) -> Edge {
    Edge {
        id: id.to_owned(),
        from: from.to_owned(),
        to: to.to_owned(),
        kind: EdgeKind::CriticalPath,
        traversal: if item.is_some() { TraversalKind::Locked } else { TraversalKind::Open },
        required_item: item.map(|s| s.to_owned()),
        tags: Vec::new(),
    }
}

fn lock_and_key() -> Candidate {
    let mut c = create_initial_candidate(&intent(), 7);
    c.graph = IntentGraph {
        nodes: vec![
            node("start", NodeKind::Start, None),
            node("key", NodeKind::Key, Some("key.red")),
            node("gate", NodeKind::Gate, None),
            node("goal", NodeKind::Goal, None),
            node("island", NodeKind::Treasure, None),
        ],
        edges: vec![
            // listed out of order, so one pass over the edges is not enough
            edge("e3", "gate", "goal", None),
            edge("e2", "start", "gate", Some("key.red")),
            edge("e1", "start", "key", None),
        ],
    };
    c
}

fn items(v: &[&str]) -> Vec<String> {
    v.iter().map(|s| s.to_string()).collect()
}

#[test]
fn initial_candidate_reaches_start_and_goal() {
    let c = create_initial_candidate(&intent(), 7);
    assert_eq!(source_reachable_nodes(&c, &Vec::new()), vec!["goal", "start"]);
}

#[test]
fn locked_edge_stops_flow_without_its_item() {
    assert_eq!(source_reachable_nodes(&lock_and_key(), &Vec::new()), vec!["key", "start"]);
}

#[test]
fn item_opens_lock_and_flow_reaches_beyond_it() {
    assert_eq!(
        source_reachable_nodes(&lock_and_key(), &items(&["key.red"])),
        vec!["gate", "goal", "key", "start"]
    );
}

#[test]
fn more_items_never_shrink_the_reachable_set() {
    let c = lock_and_key();
    let few = source_reachable_nodes(&c, &Vec::new());
    let many = source_reachable_nodes(&c, &items(&["key.blue", "key.red"]));
    for id in &few {
        assert!(many.contains(id));
    }
}

#[test]
fn edge_open_needs_the_required_item() {
    let locked = edge("e", "a", "b", Some("key.red"));
    let open = edge("f", "a", "b", None);
    assert!(!edge_open_for_items(&locked, &items(&["key.blue"])));
    assert!(edge_open_for_items(&locked, &items(&["key.blue", "key.red"])));
    assert!(edge_open_for_items(&open, &Vec::new()));
}
