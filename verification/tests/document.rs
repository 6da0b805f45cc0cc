use talos::document::{edge_from_value, graph_from_value, node_from_value, parse_graph, GraphParseError};
use talos::graph::{Edge, GraphDocument, Node};
use talos::store::{load_graph, DEFAULT_GRAPH_TEXT};

fn value(text: &str) -> serde_json::Value {
    serde_json::from_str(text).unwrap()
}

#[test]
fn document_is_read_in_order() {
    let text = r#"{
        "nodes": [
            {"id": "start", "skillType": "start"},
            {"id": "A", "skillType": "click"},
            {"id": "end", "skillType": "end"}
        ],
        "edges": [
            {"fromSkillId": "start", "toSkillId": "A", "edgeType": "execution"},
            {"fromSkillId": "A", "toSkillId": "end", "edgeType": "execution"}
        ]
    }"#;
    let expected = GraphDocument {
        nodes: vec![Node::new("start", "start"), Node::new("A", "click"), Node::new("end", "end")],
        edges: vec![Edge::new("start", "A", "execution"), Edge::new("A", "end", "execution")],
    };
    assert_eq!(parse_graph(text), Ok(expected));
}

#[test]
fn unknown_fields_are_ignored() {
    let text = r#"{
        "version": 3,
        "nodes": [{"id": "s", "x": 200, "y": 300.5, "label": "Start", "skillType": "start", "inputs": []}],
        "edges": [{"fromSkillId": "s", "fromPortId": "o", "toSkillId": "t", "toPortId": "i", "edgeType": "data", "type": "x"}]
    }"#;
    let expected = GraphDocument {
        nodes: vec![Node::new("s", "start")],
        edges: vec![Edge::new("s", "t", "data")],
    };
    assert_eq!(parse_graph(text), Ok(expected));
}

#[test]
fn empty_lists_are_a_graph() {
    let expected = GraphDocument { nodes: Vec::new(), edges: Vec::new() };
    assert_eq!(parse_graph(r#"{"nodes": [], "edges": []}"#), Ok(expected));
}

#[test]
fn text_that_is_no_json_carries_the_readers_message() {
    let text = r#"{"nodes": ["#;
    let cause = serde_json::from_str::<serde_json::Value>(text).unwrap_err().to_string();
    assert!(!cause.is_empty());
    assert_ne!(cause, text);
    assert_eq!(parse_graph(text), Err(GraphParseError::Syntax { cause }));
}

#[test]
fn empty_text_is_no_json() {
    assert!(matches!(parse_graph(""), Err(GraphParseError::Syntax { .. })));
}

#[test]
fn document_without_nodes_is_refused() {
    assert_eq!(parse_graph(r#"{"edges": []}"#), Err(GraphParseError::MissingNodes));
    assert_eq!(parse_graph(r#"{"nodes": {}, "edges": []}"#), Err(GraphParseError::MissingNodes));
    assert_eq!(parse_graph(r#"[]"#), Err(GraphParseError::MissingNodes));
    assert_eq!(parse_graph(r#""nodes""#), Err(GraphParseError::MissingNodes));
}

#[test]
fn document_without_edges_is_refused() {
    assert_eq!(parse_graph(r#"{"nodes": []}"#), Err(GraphParseError::MissingEdges));
    assert_eq!(parse_graph(r#"{"nodes": [], "edges": "none"}"#), Err(GraphParseError::MissingEdges));
}

#[test]
fn first_bad_node_is_named() {
    let text = r#"{
        "nodes": [
            {"id": "s", "skillType": "start"},
            {"id": "A"},
            {"skillType": "end"}
        ],
        "edges": []
    }"#;
    assert_eq!(parse_graph(text), Err(GraphParseError::BadNode { index: 1 }));
    let wrong_kind = r#"{"nodes": [{"id": 7, "skillType": "start"}], "edges": []}"#;
    assert_eq!(parse_graph(wrong_kind), Err(GraphParseError::BadNode { index: 0 }));
    let no_object = r#"{"nodes": [{"id": "s", "skillType": "start"}, "A"], "edges": []}"#;
    assert_eq!(parse_graph(no_object), Err(GraphParseError::BadNode { index: 1 }));
}

#[test]
fn first_bad_edge_is_named() {
    let text = r#"{
        "nodes": [],
        "edges": [
            {"fromSkillId": "a", "toSkillId": "b", "edgeType": "execution"},
            {"fromSkillId": "a", "toSkillId": "b", "edgeType": "execution"},
            {"fromSkillId": "a", "toSkillId": "b", "type": "execution"},
            {"toSkillId": "b", "edgeType": "execution"}
        ]
    }"#;
    assert_eq!(parse_graph(text), Err(GraphParseError::BadEdge { index: 2 }));
    let no_target = r#"{"nodes": [], "edges": [{"fromSkillId": "a", "edgeType": "data"}]}"#;
    assert_eq!(parse_graph(no_target), Err(GraphParseError::BadEdge { index: 0 }));
    let null_source = r#"{"nodes": [], "edges": [{"fromSkillId": null, "toSkillId": "b", "edgeType": "data"}]}"#;
    assert_eq!(parse_graph(null_source), Err(GraphParseError::BadEdge { index: 0 }));
}

#[test]
fn nodes_are_checked_before_edges() {
    let text = r#"{"nodes": [{"id": "s"}], "edges": 4}"#;
    assert_eq!(parse_graph(text), Err(GraphParseError::BadNode { index: 0 }));
}

#[test]
fn value_is_read_as_the_text_is() {
    let v = value(r#"{"nodes": [{"id": "n", "skillType": "start"}], "edges": []}"#);
    let expected = GraphDocument { nodes: vec![Node::new("n", "start")], edges: Vec::new() };
    assert_eq!(graph_from_value(&v), Ok(expected));
    assert_eq!(graph_from_value(&value("null")), Err(GraphParseError::MissingNodes));
}

#[test]
fn single_node_and_edge_are_read() {
    assert_eq!(
        node_from_value(&value(r#"{"skillType": "click", "id": "A", "x": 1}"#)),
        Some(Node::new("A", "click"))
    );
    assert_eq!(node_from_value(&value(r#"{"id": "A"}"#)), None);
    assert_eq!(node_from_value(&value(r#"["A", "click"]"#)), None);
    assert_eq!(
        edge_from_value(&value(r#"{"fromSkillId": "a", "toSkillId": "b", "edgeType": "data"}"#)),
        Some(Edge::new("a", "b", "data"))
    );
    assert_eq!(edge_from_value(&value(r#"{"fromSkillId": "a", "toSkillId": "b"}"#)), None);
}

#[test]
fn default_text_reads_as_the_default_graph() {
    assert_eq!(parse_graph(DEFAULT_GRAPH_TEXT), Ok(GraphDocument::default_graph()));
}

#[test]
fn missing_document_gives_the_default_graph_to_write() {
    let loaded = load_graph(None).unwrap();
    assert_eq!(loaded.graph, GraphDocument::default_graph());
    assert_eq!(loaded.text, DEFAULT_GRAPH_TEXT);
    assert!(loaded.persist);
    assert_eq!(loaded.graph.nodes.len(), 2);
    assert_eq!(loaded.graph.edges.len(), 1);
}

#[test]
fn stored_document_is_read_and_not_written() {
    let text = r#"{"nodes": [{"id": "s", "skillType": "start"}], "edges": []}"#;
    let loaded = load_graph(Some(text)).unwrap();
    assert_eq!(loaded.graph, GraphDocument { nodes: vec![Node::new("s", "start")], edges: Vec::new() });
    assert_eq!(loaded.text, text);
    assert!(!loaded.persist);
}

#[test]
fn stored_document_that_is_malformed_is_refused() {
    assert_eq!(load_graph(Some("{}")), Err(GraphParseError::MissingNodes));
    assert!(matches!(load_graph(Some("not json")), Err(GraphParseError::Syntax { .. })));
}
