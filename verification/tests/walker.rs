use talos::graph::{Edge, GraphDocument, Node};
use talos::walker::{find_edge_from, find_start, names_end_node, resolve_order, WalkError};

fn graph(nodes: &[(&str, &str)], edges: &[(&str, &str, &str)]) -> GraphDocument {
    GraphDocument {
        nodes: nodes.iter().map(|(id, kind)| Node::new(id, kind)).collect(),
        edges: edges.iter().map(|(from, to, kind)| Edge::new(from, to, kind)).collect(),
    }
}

fn names(ids: &[&str]) -> Vec<String> {
    ids.iter().map(|id| id.to_string()).collect()
}

#[test]
fn start_to_end_gives_empty_order() {
    let g = graph(&[("start", "start"), ("end", "end")], &[("start", "end", "execution")]);
    assert_eq!(resolve_order(&g), Ok(Vec::new()));
}

#[test]
fn linear_chain_gives_steps_in_order() {
    let g = graph(
        &[("start", "start"), ("A", "click"), ("B", "type"), ("end", "end")],
        &[("start", "A", "execution"), ("A", "B", "execution"), ("B", "end", "execution")],
    );
    assert_eq!(resolve_order(&g), Ok(names(&["A", "B"])));
}

#[test]
fn chain_is_followed_whatever_the_order_of_the_edges() {
    let g = graph(
        &[("end", "end"), ("B", "type"), ("A", "click"), ("start", "start")],
        &[("B", "end", "execution"), ("A", "B", "execution"), ("start", "A", "execution")],
    );
    assert_eq!(resolve_order(&g), Ok(names(&["A", "B"])));
}

#[test]
fn data_edges_do_not_count() {
    let g = graph(
        &[("start", "start"), ("A", "click"), ("B", "type"), ("end", "end")],
        &[("start", "A", "execution"), ("A", "B", "data"), ("A", "end", "execution")],
    );
    assert_eq!(resolve_order(&g), Ok(names(&["A"])));
}

#[test]
fn data_edge_before_the_execution_edge_does_not_count() {
    let g = graph(
        &[("start", "start"), ("A", "click"), ("B", "type"), ("end", "end")],
        &[("start", "B", "data"), ("start", "A", "execution"), ("A", "end", "execution")],
    );
    assert_eq!(resolve_order(&g), Ok(names(&["A"])));
}

#[test]
fn missing_start_node_is_an_error() {
    let g = graph(&[("A", "click"), ("end", "end")], &[("A", "end", "execution")]);
    assert_eq!(resolve_order(&g), Err(WalkError::NoStartNode));
}

#[test]
fn empty_graph_has_no_start_node() {
    let g = graph(&[], &[]);
    assert_eq!(resolve_order(&g), Err(WalkError::NoStartNode));
}

#[test]
fn two_start_nodes_are_an_error() {
    let g = graph(
        &[("s1", "start"), ("s2", "start"), ("end", "end")],
        &[("s1", "end", "execution")],
    );
    assert_eq!(resolve_order(&g), Err(WalkError::NoStartNode));
}

#[test]
fn first_branch_in_document_order_wins() {
    let g = graph(
        &[("start", "start"), ("A", "click"), ("B", "type"), ("end", "end")],
        &[
            ("start", "A", "execution"),
            ("start", "B", "execution"),
            ("A", "end", "execution"),
            ("B", "end", "execution"),
        ],
    );
    assert_eq!(resolve_order(&g), Ok(names(&["A"])));
    let swapped = graph(
        &[("start", "start"), ("A", "click"), ("B", "type"), ("end", "end")],
        &[
            ("start", "B", "execution"),
            ("start", "A", "execution"),
            ("A", "end", "execution"),
            ("B", "end", "execution"),
        ],
    );
    assert_eq!(resolve_order(&swapped), Ok(names(&["B"])));
}

#[test]
fn removing_the_later_branch_changes_nothing() {
    let with = graph(
        &[("start", "start"), ("A", "click"), ("B", "type"), ("end", "end")],
        &[("start", "A", "execution"), ("start", "B", "execution"), ("A", "end", "execution")],
    );
    let without = graph(
        &[("start", "start"), ("A", "click"), ("B", "type"), ("end", "end")],
        &[("start", "A", "execution"), ("A", "end", "execution")],
    );
    assert_eq!(resolve_order(&with), resolve_order(&without));
}

#[test]
fn dead_end_returns_what_was_gathered() {
    let g = graph(
        &[("start", "start"), ("A", "click"), ("B", "type"), ("end", "end")],
        &[("start", "A", "execution"), ("A", "B", "execution")],
    );
    assert_eq!(resolve_order(&g), Ok(names(&["A", "B"])));
}

#[test]
fn start_without_edges_gives_empty_order() {
    let g = graph(&[("start", "start"), ("end", "end")], &[]);
    assert_eq!(resolve_order(&g), Ok(Vec::new()));
}

#[test]
fn cycle_is_reported() {
    let g = graph(
        &[("start", "start"), ("A", "click"), ("B", "type"), ("end", "end")],
        &[("start", "A", "execution"), ("A", "B", "execution"), ("B", "A", "execution")],
    );
    assert_eq!(resolve_order(&g), Err(WalkError::Cycle));
}

#[test]
fn self_loop_is_a_cycle() {
    let g = graph(
        &[("start", "start"), ("A", "click")],
        &[("start", "A", "execution"), ("A", "A", "execution")],
    );
    assert_eq!(resolve_order(&g), Err(WalkError::Cycle));
}

#[test]
fn walk_back_to_start_is_a_cycle() {
    let g = graph(
        &[("start", "start"), ("A", "click")],
        &[("start", "A", "execution"), ("A", "start", "execution")],
    );
    assert_eq!(resolve_order(&g), Err(WalkError::Cycle));
}

#[test]
fn end_node_is_known_by_its_type() {
    let g = graph(
        &[("begin", "start"), ("A", "click"), ("finish", "end")],
        &[("begin", "A", "execution"), ("A", "finish", "execution")],
    );
    assert_eq!(resolve_order(&g), Ok(names(&["A"])));
}

#[test]
fn node_named_end_of_another_type_is_a_step() {
    let g = graph(
        &[("start", "start"), ("end", "click"), ("stop", "end")],
        &[("start", "end", "execution"), ("end", "stop", "execution")],
    );
    assert_eq!(resolve_order(&g), Ok(names(&["end"])));
}

#[test]
fn edge_to_an_unknown_node_is_followed() {
    let g = graph(&[("start", "start")], &[("start", "ghost", "execution")]);
    assert_eq!(resolve_order(&g), Ok(names(&["ghost"])));
}

#[test]
fn find_start_gives_the_index_of_the_only_start() {
    let g = graph(&[("A", "click"), ("s", "start"), ("end", "end")], &[]);
    assert_eq!(find_start(&g.nodes), Some(1));
    let none = graph(&[("A", "click")], &[]);
    assert_eq!(find_start(&none.nodes), None);
    let two = graph(&[("s", "start"), ("A", "click"), ("t", "start")], &[]);
    assert_eq!(find_start(&two.nodes), None);
}

#[test]
fn find_edge_from_gives_the_first_execution_edge() {
    let g = graph(
        &[],
        &[
            ("B", "C", "execution"),
            ("A", "X", "data"),
            ("A", "B", "execution"),
            ("A", "C", "execution"),
        ],
    );
    assert_eq!(find_edge_from(&g.edges, &"A".to_string()), Some(2));
    assert_eq!(find_edge_from(&g.edges, &"B".to_string()), Some(0));
    assert_eq!(find_edge_from(&g.edges, &"C".to_string()), None);
}

#[test]
fn names_end_node_looks_at_id_and_type() {
    let g = graph(&[("s", "start"), ("A", "click"), ("e", "end")], &[]);
    assert!(names_end_node(&g.nodes, &"e".to_string()));
    assert!(!names_end_node(&g.nodes, &"A".to_string()));
    assert!(!names_end_node(&g.nodes, &"end".to_string()));
}
