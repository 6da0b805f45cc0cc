//! The graph document: nodes, edges, and their mathematical views.

use vstd::prelude::*;

verus! {

/// A step of a skill graph. `skill_type` is `"start"`, `"end"`, or the name
/// of an executable skill.
#[derive(Debug, Clone, PartialEq, Eq)]
pub struct Node {
    pub id: String,
    pub skill_type: String,
}

/// A directed edge. Only edges whose `edge_type` is `"execution"` order the
/// steps; every other kind carries data and is ignored by the walk.
#[derive(Debug, Clone, PartialEq, Eq)]
pub struct Edge {
    pub from_id: String,
    pub to_id: String,
    pub edge_type: String,
}

/// A skill graph as it is stored: nodes and edges in document order.
#[derive(Debug, Clone, PartialEq, Eq)]
pub struct GraphDocument {
    pub nodes: Vec<Node>,
    pub edges: Vec<Edge>,
}

/// What a `Node` stands for in contracts.
pub struct NodeView {
    pub id: Seq<char>,
    pub skill_type: Seq<char>,
}

/// What an `Edge` stands for in contracts.
pub struct EdgeView {
    pub from_id: Seq<char>,
    pub to_id: Seq<char>,
    pub edge_type: Seq<char>,
}

/// What a `GraphDocument` stands for in contracts.
pub struct GraphView {
    pub nodes: Seq<NodeView>,
    pub edges: Seq<EdgeView>,
}

impl View for Node {
    type V = NodeView;

    open spec fn view(&self) -> NodeView {
        NodeView { id: self.id@, skill_type: self.skill_type@ }
    }
}

impl View for Edge {
    type V = EdgeView;

    open spec fn view(&self) -> EdgeView {
        EdgeView { from_id: self.from_id@, to_id: self.to_id@, edge_type: self.edge_type@ }
    }
}

impl View for GraphDocument {
    type V = GraphView;

    open spec fn view(&self) -> GraphView {
        GraphView { nodes: node_views(self.nodes@), edges: edge_views(self.edges@) }
    }
}

/// The views of a run of nodes, in the same order.
pub open spec fn node_views(nodes: Seq<Node>) -> Seq<NodeView> {
    Seq::new(nodes.len(), |i: int| nodes[i]@)
}

/// The views of a run of edges, in the same order.
pub open spec fn edge_views(edges: Seq<Edge>) -> Seq<EdgeView> {
    Seq::new(edges.len(), |i: int| edges[i]@)
}

/// The texts of a run of strings, in the same order.
pub open spec fn texts(names: Seq<String>) -> Seq<Seq<char>> {
    Seq::new(names.len(), |i: int| names[i]@)
}

/// The type tag of the node at which a run begins.
pub open spec fn start_tag() -> Seq<char> {
    "start"@
}

/// The type tag of the node at which a run ends.
pub open spec fn end_tag() -> Seq<char> {
    "end"@
}

/// The type tag of the edges that order the steps.
pub open spec fn execution_tag() -> Seq<char> {
    "execution"@
}

impl NodeView {
    /// The node is a start node.
    pub open spec fn is_start(self) -> bool {
        self.skill_type == start_tag()
    }

    /// The node is an end node.
    pub open spec fn is_end(self) -> bool {
        self.skill_type == end_tag()
    }
}

impl EdgeView {
    /// The edge orders two steps.
    pub open spec fn is_execution(self) -> bool {
        self.edge_type == execution_tag()
    }

    /// An execution edge that leaves the node `id`.
    pub open spec fn leaves(self, id: Seq<char>) -> bool {
        self.is_execution() && self.from_id == id
    }
}

impl Node {
    /// A node with this identifier and this type tag.
    pub fn new(id: &str, skill_type: &str) -> (node: Node)
        ensures
            node@ == (NodeView { id: id@, skill_type: skill_type@ }),
    {
        Node { id: id.to_owned(), skill_type: skill_type.to_owned() }
    }

    /// Whether the node is a start node.
    pub fn is_start(&self) -> (b: bool)
        ensures
            b == self@.is_start(),
    {
        let tag = "start".to_owned();
        self.skill_type == tag
    }

    /// Whether the node is an end node.
    pub fn is_end(&self) -> (b: bool)
        ensures
            b == self@.is_end(),
    {
        let tag = "end".to_owned();
        self.skill_type == tag
    }
}

impl Edge {
    /// An edge of this type between the nodes with these identifiers.
    pub fn new(from_id: &str, to_id: &str, edge_type: &str) -> (edge: Edge)
        ensures
            edge@ == (EdgeView { from_id: from_id@, to_id: to_id@, edge_type: edge_type@ }),
    {
        Edge {
            from_id: from_id.to_owned(),
            to_id: to_id.to_owned(),
            edge_type: edge_type.to_owned(),
        }
    }

    /// Whether the edge is an execution edge.
    pub fn is_execution(&self) -> (b: bool)
        ensures
            b == self@.is_execution(),
    {
        let tag = "execution".to_owned();
        self.edge_type == tag
    }
}

/// No two nodes share an identifier.
pub open spec fn unique_node_ids(nodes: Seq<NodeView>) -> bool {
    forall|i: int, j: int|
        0 <= i < j < nodes.len() ==> (#[trigger] nodes[i]).id != (#[trigger] nodes[j]).id
}

impl GraphView {
    /// The invariant of a graph document: node identifiers are unique.
    pub open spec fn is_well_formed(self) -> bool {
        unique_node_ids(self.nodes)
    }
}

/// The graph that a new bot starts with: a start node, an end node, and one
/// execution edge from the first to the second.
pub open spec fn default_graph_view() -> GraphView {
    GraphView {
        nodes: seq![
            NodeView { id: "start"@, skill_type: start_tag() },
            NodeView { id: "end"@, skill_type: end_tag() },
        ],
        edges: seq![EdgeView { from_id: "start"@, to_id: "end"@, edge_type: execution_tag() }],
    }
}

impl GraphDocument {
    /// The graph that a new bot starts with.
    pub fn default_graph() -> (graph: GraphDocument)
        ensures
            graph@ == default_graph_view(),
    {
        let mut nodes: Vec<Node> = Vec::new();
        nodes.push(Node::new("start", "start"));
        nodes.push(Node::new("end", "end"));
        let mut edges: Vec<Edge> = Vec::new();
        edges.push(Edge::new("start", "end", "execution"));
        let graph = GraphDocument { nodes, edges };
        assert(graph@.nodes =~= default_graph_view().nodes);
        assert(graph@.edges =~= default_graph_view().edges);
        graph
    }

    /// Whether the document keeps its invariant: no identifier names two nodes.
    pub fn is_well_formed(&self) -> (b: bool)
        ensures
            b == self@.is_well_formed(),
    {
        let ghost views = node_views(self.nodes@);
        let mut j: usize = 0;
        while j < self.nodes.len()
            invariant
                0 <= j <= self.nodes.len(),
                views == node_views(self.nodes@),
                forall|a: int, b: int|
                    0 <= a < b < j ==> (#[trigger] views[a]).id != (#[trigger] views[b]).id,
            decreases self.nodes.len() - j,
        {
            let mut i: usize = 0;
            while i < j
                invariant
                    0 <= i <= j < self.nodes.len(),
                    views == node_views(self.nodes@),
                    forall|a: int| 0 <= a < i ==> (#[trigger] views[a]).id != views[j as int].id,
                decreases j - i,
            {
                if self.nodes[i].id == self.nodes[j].id {
                    assert(views[i as int].id == views[j as int].id);
                    return false;
                }
                i += 1;
            }
            j += 1;
        }
        true
    }
}

} // verus!
