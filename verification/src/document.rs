//! The graph store's reader: from the JSON text of a graph document to the
//! graph. `serde_json` reads the JSON; what the document must hold is stated
//! and checked here. A document is an object with an array `nodes`, each an
//! object with the texts `id` and `skillType`, and an array `edges`, each an
//! object with the texts `fromSkillId`, `toSkillId` and `edgeType`. Whatever
//! else the objects hold is ignored.

use vstd::prelude::*;
use crate::graph::{Edge, EdgeView, GraphDocument, GraphView, Node, NodeView, edge_views, node_views};

verus! {

/// `serde_json::Value`, a JSON value. Nothing of its inside is known to the
/// proofs but through the four names below.
#[verifier::external_type_specification]
#[verifier::external_body]
pub struct ExJsonValue(serde_json::Value);

/// `serde_json::Error`, the reason why a text is no JSON.
#[verifier::external_type_specification]
#[verifier::external_body]
pub struct ExJsonError(serde_json::Error);

/// What `serde_json::from_str` makes of a text when it is asked for a `Value`.
pub uninterp spec fn parsed_json(text: Seq<char>) -> Result<serde_json::Value, serde_json::Error>;

/// The message of a `serde_json::Error`, as its `Display` writes it.
pub uninterp spec fn failure_text(error: serde_json::Error) -> Seq<char>;

/// What `Value::get` finds under a key: the member of that name where the
/// value is an object that has one.
pub uninterp spec fn json_member(value: serde_json::Value, key: Seq<char>) -> Option<
    serde_json::Value,
>;

/// What `Value::as_array` gives: the elements where the value is an array.
pub uninterp spec fn json_items(value: serde_json::Value) -> Option<Seq<serde_json::Value>>;

/// What `Value::as_str` gives: the text where the value is a string.
pub uninterp spec fn json_text(value: serde_json::Value) -> Option<Seq<char>>;

/// Calls `serde_json::from_str` for a `Value`. The contract only names the
/// result: the same text always reads as the same value or fails alike.
#[verifier::external_body]
fn parse_json(text: &str) -> (result: Result<serde_json::Value, serde_json::Error>)
    ensures
        result == parsed_json(text@),
{
    serde_json::from_str(text)
}

/// Calls `Display` on a `serde_json::Error` and names the text that it writes.
#[verifier::external_body]
fn error_text(error: &serde_json::Error) -> (message: String)
    ensures
        message@ == failure_text(*error),
{
    error.to_string()
}

/// Calls `Value::get` with a text key. By its source this is the map's entry
/// under that key where the value is an object, and `None` otherwise.
#[verifier::external_body]
fn member<'a>(value: &'a serde_json::Value, key: &str) -> (found: Option<&'a serde_json::Value>)
    ensures
        match found {
            Some(inner) => json_member(*value, key@) == Some(*inner),
            None => json_member(*value, key@) is None,
        },
{
    value.get(key)
}

/// Calls `Value::as_array`: the vector inside an array, `None` for any other
/// value.
#[verifier::external_body]
fn items(value: &serde_json::Value) -> (found: Option<&Vec<serde_json::Value>>)
    ensures
        match found {
            Some(list) => json_items(*value) == Some(list@),
            None => json_items(*value) is None,
        },
{
    value.as_array()
}

/// Calls `Value::as_str`: the text inside a string, `None` for any other
/// value.
#[verifier::external_body]
fn text(value: &serde_json::Value) -> (found: Option<&str>)
    ensures
        match found {
            Some(s) => json_text(*value) == Some(s@),
            None => json_text(*value) is None,
        },
{
    value.as_str()
}

/// Why a text is no graph document.
#[derive(Debug, Clone, PartialEq, Eq)]
pub enum GraphParseError {
    /// The text is no JSON; the cause is the JSON reader's message.
    Syntax { cause: String },
    /// The document is no object with an array `nodes`.
    MissingNodes,
    /// The document is no object with an array `edges`.
    MissingEdges,
    /// The node at `index` lacks one of its texts.
    BadNode { index: usize },
    /// The edge at `index` lacks one of its texts.
    BadEdge { index: usize },
}

/// What a `GraphParseError` stands for in contracts.
pub enum GraphParseErrorView {
    Syntax { cause: Seq<char> },
    MissingNodes,
    MissingEdges,
    BadNode { index: int },
    BadEdge { index: int },
}

impl View for GraphParseError {
    type V = GraphParseErrorView;

    open spec fn view(&self) -> GraphParseErrorView {
        match self {
            GraphParseError::Syntax { cause } => GraphParseErrorView::Syntax { cause: cause@ },
            GraphParseError::MissingNodes => GraphParseErrorView::MissingNodes,
            GraphParseError::MissingEdges => GraphParseErrorView::MissingEdges,
            GraphParseError::BadNode { index } => GraphParseErrorView::BadNode {
                index: *index as int,
            },
            GraphParseError::BadEdge { index } => GraphParseErrorView::BadEdge {
                index: *index as int,
            },
        }
    }
}

/// What reading a document gave, in contracts.
pub open spec fn reading_view(reading: Result<GraphDocument, GraphParseError>) -> Result<
    GraphView,
    GraphParseErrorView,
> {
    match reading {
        Ok(graph) => Ok(graph@),
        Err(e) => Err(e@),
    }
}

/// The text under `key` in an object.
pub open spec fn text_member(value: serde_json::Value, key: Seq<char>) -> Option<Seq<char>> {
    match json_member(value, key) {
        Some(inner) => json_text(inner),
        None => None,
    }
}

/// The elements of the array under `key` in an object.
pub open spec fn list_member(value: serde_json::Value, key: Seq<char>) -> Option<
    Seq<serde_json::Value>,
> {
    match json_member(value, key) {
        Some(inner) => json_items(inner),
        None => None,
    }
}

/// The node that a JSON value describes, if it has both texts of a node.
pub open spec fn node_of(value: serde_json::Value) -> Option<NodeView> {
    match (text_member(value, "id"@), text_member(value, "skillType"@)) {
        (Some(id), Some(skill_type)) => Some(NodeView { id, skill_type }),
        _ => None,
    }
}

/// The edge that a JSON value describes, if it has the three texts of an edge.
pub open spec fn edge_of(value: serde_json::Value) -> Option<EdgeView> {
    match (
        text_member(value, "fromSkillId"@),
        text_member(value, "toSkillId"@),
        text_member(value, "edgeType"@),
    ) {
        (Some(from_id), Some(to_id), Some(edge_type)) => Some(
            EdgeView { from_id, to_id, edge_type },
        ),
        _ => None,
    }
}

/// The entry at `i` is the first that is `None`.
pub open spec fn is_first_gap<T>(entries: Seq<Option<T>>, i: int) -> bool {
    &&& 0 <= i < entries.len()
    &&& entries[i] is None
    &&& forall|j: int| 0 <= j < i ==> (#[trigger] entries[j]) is Some
}

/// The entries without their `Some`, or the place of the first `None`.
pub open spec fn all_present<T>(entries: Seq<Option<T>>) -> Result<Seq<T>, int> {
    if exists|i: int| is_first_gap(entries, i) {
        Err(choose|i: int| is_first_gap(entries, i))
    } else {
        Ok(Seq::new(entries.len(), |i: int| entries[i]->0))
    }
}

/// The graph that a JSON value describes, or the first thing that it lacks:
/// the nodes are looked at before the edges, each list from its beginning.
pub open spec fn graph_of(value: serde_json::Value) -> Result<GraphView, GraphParseErrorView> {
    match list_member(value, "nodes"@) {
        None => Err(GraphParseErrorView::MissingNodes),
        Some(node_items) => match all_present(node_items.map_values(|v| node_of(v))) {
            Err(index) => Err(GraphParseErrorView::BadNode { index }),
            Ok(nodes) => match list_member(value, "edges"@) {
                None => Err(GraphParseErrorView::MissingEdges),
                Some(edge_items) => match all_present(edge_items.map_values(|v| edge_of(v))) {
                    Err(index) => Err(GraphParseErrorView::BadEdge { index }),
                    Ok(edges) => Ok(GraphView { nodes, edges }),
                },
            },
        },
    }
}

/// The graph that a text describes: the text is read as JSON, and the JSON
/// as a graph.
pub open spec fn graph_of_text(text: Seq<char>) -> Result<GraphView, GraphParseErrorView> {
    match parsed_json(text) {
        Err(error) => Err(GraphParseErrorView::Syntax { cause: failure_text(error) }),
        Ok(value) => graph_of(value),
    }
}

/// At most one entry is the first gap.
pub proof fn lemma_first_gap_unique<T>(entries: Seq<Option<T>>, i: int, j: int)
    requires
        is_first_gap(entries, i),
        is_first_gap(entries, j),
    ensures
        i == j,
{
    if i < j {
        assert(entries[i] is None);
    } else if j < i {
        assert(entries[j] is None);
    }
}

/// Entries whose first gap is at `i` are not all present, and `i` is named.
pub proof fn lemma_gap_is_named<T>(entries: Seq<Option<T>>, i: int)
    requires
        is_first_gap(entries, i),
    ensures
        all_present(entries) == Err::<Seq<T>, int>(i),
{
    let chosen = choose|k: int| is_first_gap(entries, k);
    lemma_first_gap_unique(entries, i, chosen);
}

/// Entries that are `Some` of `values`, place by place, are all present.
pub proof fn lemma_all_present<T>(entries: Seq<Option<T>>, values: Seq<T>)
    requires
        entries.len() == values.len(),
        forall|k: int| 0 <= k < entries.len() ==> (#[trigger] entries[k]) == Some(values[k]),
    ensures
        all_present(entries) == Ok::<Seq<T>, int>(values),
{
    assert forall|k: int| !is_first_gap(entries, k) by {
        if is_first_gap(entries, k) {
            assert(entries[k] is Some);
        }
    }
    assert(Seq::new(entries.len(), |k: int| entries[k]->0) =~= values);
}

/// The text under `key`, where `value` is an object that holds a string there.
fn text_of_member(value: &serde_json::Value, key: &str) -> (found: Option<String>)
    ensures
        match found {
            Some(s) => text_member(*value, key@) == Some(s@),
            None => text_member(*value, key@) is None,
        },
{
    match member(value, key) {
        Some(inner) => match text(inner) {
            Some(s) => Some(s.to_owned()),
            None => None,
        },
        None => None,
    }
}

/// The array under `key`, where `value` is an object that holds one there.
fn list_of_member<'a>(value: &'a serde_json::Value, key: &str) -> (found: Option<
    &'a Vec<serde_json::Value>,
>)
    ensures
        match found {
            Some(list) => list_member(*value, key@) == Some(list@),
            None => list_member(*value, key@) is None,
        },
{
    match member(value, key) {
        Some(inner) => items(inner),
        None => None,
    }
}

/// Reads one node.
pub fn node_from_value(value: &serde_json::Value) -> (found: Option<Node>)
    ensures
        match found {
            Some(node) => node_of(*value) == Some(node@),
            None => node_of(*value) is None,
        },
{
    let id = match text_of_member(value, "id") {
        Some(s) => s,
        None => {
            return None;
        },
    };
    let skill_type = match text_of_member(value, "skillType") {
        Some(s) => s,
        None => {
            return None;
        },
    };
    Some(Node { id, skill_type })
}

/// Reads one edge.
pub fn edge_from_value(value: &serde_json::Value) -> (found: Option<Edge>)
    ensures
        match found {
            Some(edge) => edge_of(*value) == Some(edge@),
            None => edge_of(*value) is None,
        },
{
    let from_id = match text_of_member(value, "fromSkillId") {
        Some(s) => s,
        None => {
            return None;
        },
    };
    let to_id = match text_of_member(value, "toSkillId") {
        Some(s) => s,
        None => {
            return None;
        },
    };
    let edge_type = match text_of_member(value, "edgeType") {
        Some(s) => s,
        None => {
            return None;
        },
    };
    Some(Edge { from_id, to_id, edge_type })
}

/// Reads every node of a list, or says where the first bad one stands.
fn nodes_from_values(list: &Vec<serde_json::Value>) -> (result: Result<Vec<Node>, usize>)
    ensures
        match result {
            Ok(nodes) => all_present(list@.map_values(|v| node_of(v))) == Ok::<Seq<NodeView>, int>(
                node_views(nodes@),
            ),
            Err(index) => all_present(list@.map_values(|v| node_of(v))) == Err::<
                Seq<NodeView>,
                int,
            >(index as int),
        },
{
    let ghost entries = list@.map_values(|v| node_of(v));
    let mut nodes: Vec<Node> = Vec::new();
    let mut i: usize = 0;
    while i < list.len()
        invariant
            0 <= i <= list.len(),
            entries == list@.map_values(|v| node_of(v)),
            nodes@.len() == i,
            forall|k: int| 0 <= k < i ==> (#[trigger] entries[k]) == Some(nodes@[k]@),
        decreases list.len() - i,
    {
        match node_from_value(&list[i]) {
            Some(node) => {
                nodes.push(node);
            },
            None => {
                proof {
                    assert(entries[i as int] is None);
                    lemma_gap_is_named(entries, i as int);
                }
                return Err(i);
            },
        }
        i += 1;
    }
    proof {
        lemma_all_present(entries, node_views(nodes@));
    }
    Ok(nodes)
}

/// Reads every edge of a list, or says where the first bad one stands.
fn edges_from_values(list: &Vec<serde_json::Value>) -> (result: Result<Vec<Edge>, usize>)
    ensures
        match result {
            Ok(edges) => all_present(list@.map_values(|v| edge_of(v))) == Ok::<Seq<EdgeView>, int>(
                edge_views(edges@),
            ),
            Err(index) => all_present(list@.map_values(|v| edge_of(v))) == Err::<
                Seq<EdgeView>,
                int,
            >(index as int),
        },
{
    let ghost entries = list@.map_values(|v| edge_of(v));
    let mut edges: Vec<Edge> = Vec::new();
    let mut i: usize = 0;
    while i < list.len()
        invariant
            0 <= i <= list.len(),
            entries == list@.map_values(|v| edge_of(v)),
            edges@.len() == i,
            forall|k: int| 0 <= k < i ==> (#[trigger] entries[k]) == Some(edges@[k]@),
        decreases list.len() - i,
    {
        match edge_from_value(&list[i]) {
            Some(edge) => {
                edges.push(edge);
            },
            None => {
                proof {
                    assert(entries[i as int] is None);
                    lemma_gap_is_named(entries, i as int);
                }
                return Err(i);
            },
        }
        i += 1;
    }
    proof {
        lemma_all_present(entries, edge_views(edges@));
    }
    Ok(edges)
}

/// Reads a graph out of a JSON value.
pub fn graph_from_value(value: &serde_json::Value) -> (result: Result<
    GraphDocument,
    GraphParseError,
>)
    ensures
        reading_view(result) == graph_of(*value),
{
    let node_items = match list_of_member(value, "nodes") {
        Some(list) => list,
        None => {
            return Err(GraphParseError::MissingNodes);
        },
    };
    let nodes = match nodes_from_values(node_items) {
        Ok(nodes) => nodes,
        Err(index) => {
            return Err(GraphParseError::BadNode { index });
        },
    };
    let edge_items = match list_of_member(value, "edges") {
        Some(list) => list,
        None => {
            return Err(GraphParseError::MissingEdges);
        },
    };
    let edges = match edges_from_values(edge_items) {
        Ok(edges) => edges,
        Err(index) => {
            return Err(GraphParseError::BadEdge { index });
        },
    };
    Ok(GraphDocument { nodes, edges })
}

/// Reads a graph out of the text of a document.
pub fn parse_graph(text: &str) -> (result: Result<GraphDocument, GraphParseError>)
    ensures
        reading_view(result) == graph_of_text(text@),
{
    match parse_json(text) {
        Ok(value) => graph_from_value(&value),
        Err(error) => Err(GraphParseError::Syntax { cause: error_text(&error) }),
    }
}

} // verus!
