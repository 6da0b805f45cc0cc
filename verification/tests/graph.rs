use talos::graph::{Edge, GraphDocument, Node};
use talos::walker::resolve_order;

#[test]
fn default_graph_is_start_end_and_one_execution_edge() {
    let g = GraphDocument::default_graph();
    assert_eq!(g.nodes, vec![Node::new("start", "start"), Node::new("end", "end")]);
    assert_eq!(g.edges, vec![Edge::new("start", "end", "execution")]);
}

#[test]
fn default_graph_is_well_formed_and_runs_nothing() {
    let g = GraphDocument::default_graph();
    assert!(g.is_well_formed());
    assert_eq!(resolve_order(&g), Ok(Vec::new()));
}

#[test]
fn node_and_edge_keep_their_texts() {
    let n = Node::new("A", "click");
    assert_eq!(n.id, "A");
    assert_eq!(n.skill_type, "click");
    let e = Edge::new("A", "B", "data");
    assert_eq!(e.from_id, "A");
    assert_eq!(e.to_id, "B");
    assert_eq!(e.edge_type, "data");
}

#[test]
fn type_tags_are_told_apart() {
    assert!(Node::new("s", "start").is_start());
    assert!(!Node::new("start", "end").is_start());
    assert!(Node::new("e", "end").is_end());
    assert!(!Node::new("end", "start").is_end());
    assert!(!Node::new("A", "Start").is_start());
    assert!(Edge::new("a", "b", "execution").is_execution());
    assert!(!Edge::new("a", "b", "data").is_execution());
    assert!(!Edge::new("execution", "execution", "").is_execution());
}

#[test]
fn repeated_identifier_breaks_the_invariant() {
    let g = GraphDocument {
        nodes: vec![Node::new("A", "start"), Node::new("B", "click"), Node::new("A", "end")],
        edges: Vec::new(),
    };
    assert!(!g.is_well_formed());
    let h = GraphDocument {
        nodes: vec![Node::new("A", "start"), Node::new("B", "click"), Node::new("C", "end")],
        edges: Vec::new(),
    };
    assert!(h.is_well_formed());
    let empty = GraphDocument { nodes: Vec::new(), edges: Vec::new() };
    assert!(empty.is_well_formed());
}
