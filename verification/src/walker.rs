//! The execution walker: from a graph document to the ordered list of steps.
//!
//! The walk begins at the only start node and follows, from each node, the
//! first execution edge that leaves it, until that edge reaches an end node
//! or no edge leaves. A walk that would never stop is reported as a cycle.

use vstd::prelude::*;
use crate::graph::{Edge, EdgeView, GraphDocument, GraphView, Node, NodeView, edge_views, node_views, texts};

verus! {

/// Why a graph has no execution order.
#[derive(Debug, Clone, Copy, PartialEq, Eq, Structural)]
pub enum WalkError {
    /// No node is a start node, or more than one is.
    NoStartNode,
    /// The walk comes back to a node it has left before, so it never ends.
    Cycle,
}

/// `nodes[i]` is a start node and no other node is.
pub open spec fn is_only_start(nodes: Seq<NodeView>, i: int) -> bool {
    &&& 0 <= i < nodes.len()
    &&& nodes[i].is_start()
    &&& forall|j: int| 0 <= j < nodes.len() && (#[trigger] nodes[j]).is_start() ==> j == i
}

/// Exactly one node is a start node.
pub open spec fn has_unique_start(nodes: Seq<NodeView>) -> bool {
    exists|i: int| is_only_start(nodes, i)
}

/// The identifier of the only start node.
pub open spec fn start_id(nodes: Seq<NodeView>) -> Seq<char>
    recommends
        has_unique_start(nodes),
{
    nodes[choose|i: int| is_only_start(nodes, i)].id
}

/// Some node named `id` is an end node.
pub open spec fn is_end_node(nodes: Seq<NodeView>, id: Seq<char>) -> bool {
    exists|j: int| 0 <= j < nodes.len() && (#[trigger] nodes[j]).id == id && nodes[j].is_end()
}

/// `edges[i]` is the first execution edge, in document order, that leaves `id`.
pub open spec fn is_first_edge_from(edges: Seq<EdgeView>, id: Seq<char>, i: int) -> bool {
    &&& 0 <= i < edges.len()
    &&& edges[i].leaves(id)
    &&& forall|j: int| 0 <= j < i ==> !(#[trigger] edges[j]).leaves(id)
}

/// The index of the first execution edge that leaves `id`, if there is one.
pub open spec fn first_edge_from(edges: Seq<EdgeView>, id: Seq<char>) -> Option<int> {
    if exists|i: int| is_first_edge_from(edges, id, i) {
        Some(choose|i: int| is_first_edge_from(edges, id, i))
    } else {
        None
    }
}

/// The target of the first execution edge that leaves `id`, if there is one.
pub open spec fn successor(edges: Seq<EdgeView>, id: Seq<char>) -> Option<Seq<char>> {
    match first_edge_from(edges, id) {
        Some(i) => Some(edges[i].to_id),
        None => None,
    }
}

/// The node that the walk goes to from `current`: the target of the first
/// execution edge that leaves it. `None` where the walk stops: no execution
/// edge leaves `current`, or that edge reaches an end node.
pub open spec fn next_step(g: GraphView, current: Seq<char>) -> Option<Seq<char>> {
    match successor(g.edges, current) {
        Some(to) => if is_end_node(g.nodes, to) {
            None
        } else {
            Some(to)
        },
        None => None,
    }
}

/// The steps visited after `current`, if the walk stops within `fuel` moves.
pub open spec fn walk(g: GraphView, current: Seq<char>, fuel: nat) -> Option<Seq<Seq<char>>>
    decreases fuel,
{
    match next_step(g, current) {
        None => Some(Seq::empty()),
        Some(next) => if fuel == 0 {
            None
        } else {
            match walk(g, next, (fuel - 1) as nat) {
                Some(rest) => Some(seq![next] + rest),
                None => None,
            }
        },
    }
}

/// The walk from `from` stops after finitely many moves.
pub open spec fn walk_ends(g: GraphView, from: Seq<char>) -> bool {
    exists|fuel: nat| walk(g, from, fuel) is Some
}

/// The steps visited after `from` by a walk that stops.
pub open spec fn steps_from(g: GraphView, from: Seq<char>) -> Seq<Seq<char>>
    recommends
        walk_ends(g, from),
{
    walk(g, from, choose|fuel: nat| walk(g, from, fuel) is Some)->0
}

/// The execution order of a graph: the steps between its start node and the
/// place where the walk stops, or the reason why there is none.
pub open spec fn execution_order(g: GraphView) -> Result<Seq<Seq<char>>, WalkError> {
    if !has_unique_start(g.nodes) {
        Err(WalkError::NoStartNode)
    } else if !walk_ends(g, start_id(g.nodes)) {
        Err(WalkError::Cycle)
    } else {
        Ok(steps_from(g, start_id(g.nodes)))
    }
}

/// Each entry of `trail` but the last moves to the entry after it.
pub open spec fn is_trail(g: GraphView, trail: Seq<Seq<char>>) -> bool {
    &&& trail.len() >= 1
    &&& forall|k: int| 0 <= k < trail.len() - 1 ==> next_step(g, #[trigger] trail[k]) == Some(trail[k + 1])
}

/// At most one edge is the first that leaves a node.
pub proof fn lemma_first_edge_unique(edges: Seq<EdgeView>, id: Seq<char>, i: int, j: int)
    requires
        is_first_edge_from(edges, id, i),
        is_first_edge_from(edges, id, j),
    ensures
        i == j,
{
    if i < j {
        assert(edges[i].leaves(id));
    } else if j < i {
        assert(edges[j].leaves(id));
    }
}

/// Once a walk has stopped, more fuel changes nothing.
pub proof fn lemma_walk_stable(g: GraphView, from: Seq<char>, fuel: nat, more: nat)
    requires
        walk(g, from, fuel) is Some,
        fuel <= more,
    ensures
        walk(g, from, more) == walk(g, from, fuel),
    decreases fuel,
{
    match next_step(g, from) {
        None => {},
        Some(next) => {
            lemma_walk_stable(g, next, (fuel - 1) as nat, (more - 1) as nat);
        },
    }
}

/// A walk that stops with `fuel` moves gives the steps of the walk.
pub proof fn lemma_steps_from(g: GraphView, from: Seq<char>, fuel: nat)
    requires
        walk(g, from, fuel) is Some,
    ensures
        walk_ends(g, from),
        steps_from(g, from) == walk(g, from, fuel)->0,
{
    let chosen = choose|f: nat| walk(g, from, f) is Some;
    if chosen <= fuel {
        lemma_walk_stable(g, from, chosen, fuel);
    } else {
        lemma_walk_stable(g, from, fuel, chosen);
    }
}

/// A walk along a trail needs one move for each entry after the first, and
/// then goes on as the walk from the trail's last entry does.
pub proof fn lemma_walk_along(g: GraphView, trail: Seq<Seq<char>>, fuel: nat)
    requires
        is_trail(g, trail),
    ensures
        fuel < trail.len() - 1 ==> walk(g, trail[0], fuel) is None,
        fuel >= trail.len() - 1 ==> walk(g, trail[0], fuel) == match walk(
            g,
            trail.last(),
            (fuel - (trail.len() - 1)) as nat,
        ) {
            Some(rest) => Some(trail.drop_first() + rest),
            None => None,
        },
    decreases trail.len(),
{
    if trail.len() == 1 {
        match walk(g, trail[0], fuel) {
            Some(rest) => {
                assert(trail.drop_first() + rest =~= rest);
            },
            None => {},
        }
    } else {
        let tail = trail.drop_first();
        assert(next_step(g, trail[0]) == Some(trail[1]));
        assert(is_trail(g, tail)) by {
            assert forall|k: int| 0 <= k < tail.len() - 1 implies next_step(g, #[trigger] tail[k])
                == Some(tail[k + 1]) by {
                assert(tail[k] == trail[k + 1]);
                assert(tail[k + 1] == trail[k + 2]);
            }
        }
        assert(tail[0] == trail[1]);
        assert(tail.last() == trail.last());
        if fuel > 0 {
            let less = (fuel - 1) as nat;
            lemma_walk_along(g, tail, less);
            if less >= tail.len() - 1 {
                match walk(g, tail.last(), (less - (tail.len() - 1)) as nat) {
                    Some(rest) => {
                        assert(seq![trail[1]] + (tail.drop_first() + rest) =~= trail.drop_first()
                            + rest);
                    },
                    None => {},
                }
            }
        }
    }
}

/// A trail whose last entry stops the walk holds, after its first entry, the
/// steps of the walk from that first entry.
pub proof fn lemma_trail_ends(g: GraphView, trail: Seq<Seq<char>>)
    requires
        is_trail(g, trail),
        next_step(g, trail.last()) is None,
    ensures
        walk_ends(g, trail[0]),
        steps_from(g, trail[0]) == trail.drop_first(),
{
    let fuel = (trail.len() - 1) as nat;
    lemma_walk_along(g, trail, fuel);
    assert(walk(g, trail.last(), 0) == Some(Seq::<Seq<char>>::empty()));
    assert(trail.drop_first() + Seq::<Seq<char>>::empty() =~= trail.drop_first());
    lemma_steps_from(g, trail[0], fuel);
}

/// A trail that comes back to one of its earlier entries never stops.
pub proof fn lemma_loop_never_ends(g: GraphView, trail: Seq<Seq<char>>, fuel: nat)
    requires
        is_trail(g, trail),
        trail.len() >= 2,
        trail.last() == trail[0],
    ensures
        walk(g, trail[0], fuel) is None,
    decreases fuel,
{
    lemma_walk_along(g, trail, fuel);
    if fuel >= trail.len() - 1 {
        lemma_loop_never_ends(g, trail, (fuel - (trail.len() - 1)) as nat);
    }
}

/// A trail whose last entry is also its entry `k` belongs to a walk that
/// never stops.
pub proof fn lemma_revisit_never_ends(g: GraphView, trail: Seq<Seq<char>>, k: int)
    requires
        is_trail(g, trail),
        0 <= k < trail.len() - 1,
        trail[k] == trail.last(),
    ensures
        !walk_ends(g, trail[0]),
{
    let head = trail.subrange(0, k + 1);
    let round = trail.subrange(k, trail.len() as int);
    assert(is_trail(g, head)) by {
        assert forall|j: int| 0 <= j < head.len() - 1 implies next_step(g, #[trigger] head[j])
            == Some(head[j + 1]) by {
            assert(head[j] == trail[j]);
            assert(head[j + 1] == trail[j + 1]);
        }
    }
    assert(is_trail(g, round)) by {
        assert forall|j: int| 0 <= j < round.len() - 1 implies next_step(g, #[trigger] round[j])
            == Some(round[j + 1]) by {
            assert(round[j] == trail[k + j]);
            assert(round[j + 1] == trail[k + j + 1]);
        }
    }
    assert(head[0] == trail[0]);
    assert(head.last() == trail[k]);
    assert(round[0] == trail[k]);
    assert(round.last() == trail.last());
    assert forall|fuel: nat| walk(g, trail[0], fuel) is None by {
        lemma_walk_along(g, head, fuel);
        if fuel >= head.len() - 1 {
            lemma_loop_never_ends(g, round, (fuel - (head.len() - 1)) as nat);
        }
    }
}

/// Each edge marked in `taken` left the entry of the trail at its place in
/// `taken_at`, and the trail has gone on from there.
pub open spec fn marks_agree(
    g: GraphView,
    trail: Seq<Seq<char>>,
    taken: Seq<bool>,
    taken_at: Seq<int>,
) -> bool {
    &&& taken.len() == g.edges.len()
    &&& taken_at.len() == g.edges.len()
    &&& forall|i: int|
        0 <= i < taken.len() && #[trigger] taken[i] ==> 0 <= taken_at[i] < trail.len() - 1
            && trail[taken_at[i]] == g.edges[i].from_id
}

/// One more move keeps a trail a trail, and the marks in agreement with it
/// once the edge that was followed is marked.
pub proof fn lemma_step_extends(
    g: GraphView,
    trail: Seq<Seq<char>>,
    taken: Seq<bool>,
    taken_at: Seq<int>,
    edge: int,
    target: Seq<char>,
)
    requires
        is_trail(g, trail),
        marks_agree(g, trail, taken, taken_at),
        0 <= edge < g.edges.len(),
        g.edges[edge].from_id == trail.last(),
        next_step(g, trail.last()) == Some(target),
    ensures
        is_trail(g, trail.push(target)),
        marks_agree(
            g,
            trail.push(target),
            taken.update(edge, true),
            taken_at.update(edge, trail.len() - 1),
        ),
{
    let longer = trail.push(target);
    assert forall|k: int| 0 <= k < longer.len() - 1 implies next_step(g, #[trigger] longer[k])
        == Some(longer[k + 1]) by {
        if k < trail.len() - 1 {
            assert(longer[k] == trail[k]);
            assert(longer[k + 1] == trail[k + 1]);
        } else {
            assert(longer[k] == trail.last());
        }
    }
    let marks = taken.update(edge, true);
    let places = taken_at.update(edge, trail.len() - 1);
    assert forall|i: int| 0 <= i < marks.len() && #[trigger] marks[i] implies 0 <= places[i]
        < longer.len() - 1 && longer[places[i]] == g.edges[i].from_id by {
        if i != edge {
            assert(taken[i]);
            assert(longer[places[i]] == trail[taken_at[i]]);
        } else {
            assert(longer[places[i]] == trail.last());
        }
    }
}

/// The texts of a run of strings with one more string are the texts of the
/// run with one more text.
pub proof fn lemma_texts_push(names: Seq<String>, name: String)
    ensures
        texts(names.push(name)) == texts(names).push(name@),
{
    assert(texts(names.push(name)) =~= texts(names).push(name@));
}

/// The index of the only start node, or `None` where the nodes hold no start
/// node or more than one.
pub fn find_start(nodes: &Vec<Node>) -> (found: Option<usize>)
    ensures
        match found {
            Some(i) => is_only_start(node_views(nodes@), i as int),
            None => !has_unique_start(node_views(nodes@)),
        },
{
    let ghost views = node_views(nodes@);
    let mut found: Option<usize> = None;
    let mut i: usize = 0;
    while i < nodes.len()
        invariant
            0 <= i <= nodes.len(),
            views == node_views(nodes@),
            match found {
                Some(s) => s < i && views[s as int].is_start() && forall|j: int|
                    0 <= j < i && (#[trigger] views[j]).is_start() ==> j == s,
                None => forall|j: int| 0 <= j < i ==> !(#[trigger] views[j]).is_start(),
            },
        decreases nodes.len() - i,
    {
        if nodes[i].is_start() {
            if found.is_some() {
                proof {
                    let s = found->0 as int;
                    assert forall|k: int| !is_only_start(views, k) by {
                        if is_only_start(views, k) {
                            assert(views[s].is_start());
                            assert(views[i as int].is_start());
                        }
                    }
                }
                return None;
            }
            found = Some(i);
        }
        i += 1;
    }
    proof {
        if found is None {
            assert forall|k: int| !is_only_start(views, k) by {
                if is_only_start(views, k) {
                    assert(views[k].is_start());
                }
            }
        }
    }
    found
}

/// Whether some node named `id` is an end node.
pub fn names_end_node(nodes: &Vec<Node>, id: &String) -> (b: bool)
    ensures
        b == is_end_node(node_views(nodes@), id@),
{
    let ghost views = node_views(nodes@);
    let mut i: usize = 0;
    while i < nodes.len()
        invariant
            0 <= i <= nodes.len(),
            views == node_views(nodes@),
            forall|j: int| 0 <= j < i ==> !((#[trigger] views[j]).id == id@ && views[j].is_end()),
        decreases nodes.len() - i,
    {
        if nodes[i].id == *id && nodes[i].is_end() {
            assert(views[i as int].id == id@ && views[i as int].is_end());
            return true;
        }
        i += 1;
    }
    false
}

/// The index of the first execution edge that leaves `id`.
pub fn find_edge_from(edges: &Vec<Edge>, id: &String) -> (found: Option<usize>)
    ensures
        match found {
            Some(i) => first_edge_from(edge_views(edges@), id@) == Some(i as int) && i
                < edges.len(),
            None => first_edge_from(edge_views(edges@), id@) is None,
        },
{
    let ghost views = edge_views(edges@);
    let mut i: usize = 0;
    while i < edges.len()
        invariant
            0 <= i <= edges.len(),
            views == edge_views(edges@),
            forall|j: int| 0 <= j < i ==> !(#[trigger] views[j]).leaves(id@),
        decreases edges.len() - i,
    {
        if edges[i].is_execution() && edges[i].from_id == *id {
            proof {
                assert(is_first_edge_from(views, id@, i as int));
                let chosen = choose|k: int| is_first_edge_from(views, id@, k);
                lemma_first_edge_unique(views, id@, i as int, chosen);
            }
            return Some(i);
        }
        i += 1;
    }
    proof {
        assert forall|k: int| !is_first_edge_from(views, id@, k) by {
            if is_first_edge_from(views, id@, k) {
                assert(views[k].leaves(id@));
            }
        }
    }
    None
}

/// The steps to run, in order: the nodes between the start node and the place
/// where the walk stops. The start node and the end node are not among them.
pub fn resolve_order(graph: &GraphDocument) -> (result: Result<Vec<String>, WalkError>)
    ensures
        match result {
            Ok(order) => execution_order(graph@) == Ok::<Seq<Seq<char>>, WalkError>(
                texts(order@),
            ),
            Err(e) => execution_order(graph@) == Err::<Seq<Seq<char>>, WalkError>(e),
        },
{
    let ghost g = graph@;
    let start = match find_start(&graph.nodes) {
        Some(i) => i,
        None => {
            return Err(WalkError::NoStartNode);
        },
    };
    proof {
        let chosen = choose|i: int| is_only_start(g.nodes, i);
        assert(is_only_start(g.nodes, start as int));
        assert(g.nodes[chosen].is_start());
        assert(chosen == start);
    }
    let mut current: String = graph.nodes[start].id.clone();
    let mut order: Vec<String> = Vec::new();
    let mut taken: Vec<bool> = Vec::new();
    while taken.len() < graph.edges.len()
        invariant
            taken.len() <= graph.edges.len(),
            forall|i: int| 0 <= i < taken.len() ==> !taken[i],
        decreases graph.edges.len() - taken.len(),
    {
        taken.push(false);
    }
    let ghost trail: Seq<Seq<char>> = seq![current@];
    let ghost taken_at: Seq<int> = Seq::new(graph.edges.len() as nat, |i: int| 0);
    let ghost free: Set<int> = Set::new(|i: int| 0 <= i < graph.edges.len());
    proof {
        vstd::set_lib::lemma_int_range(0, graph.edges.len() as int);
        assert(free =~= vstd::set_lib::set_int_range(0, graph.edges.len() as int));
    }
    loop
        invariant
            g == graph@,
            has_unique_start(g.nodes),
            is_trail(g, trail),
            trail[0] == start_id(g.nodes),
            trail.last() == current@,
            trail.drop_first() == texts(order@),
            taken.len() == graph.edges.len(),
            free.finite(),
            forall|i: int| free.contains(i) <==> 0 <= i < taken.len() && !taken[i],
            marks_agree(g, trail, taken@, taken_at),
        decreases free.len(),
    {
        let next = match find_edge_from(&graph.edges, &current) {
            Some(i) => i,
            None => {
                proof {
                    lemma_trail_ends(g, trail);
                }
                return Ok(order);
            },
        };
        let target: &String = &graph.edges[next].to_id;
        assert(g.edges[next as int].to_id == target@);
        if names_end_node(&graph.nodes, target) {
            proof {
                lemma_trail_ends(g, trail);
            }
            return Ok(order);
        }
        assert(next_step(g, current@) == Some(target@));
        assert(g.edges[next as int].from_id == current@);
        if taken[next] {
            proof {
                lemma_revisit_never_ends(g, trail, taken_at[next as int]);
            }
            return Err(WalkError::Cycle);
        }
        proof {
            lemma_step_extends(g, trail, taken@, taken_at, next as int, target@);
            lemma_texts_push(order@, *target);
            assert(trail.push(target@).drop_first() =~= trail.drop_first().push(target@));
            taken_at = taken_at.update(next as int, trail.len() - 1);
            free = free.remove(next as int);
            trail = trail.push(target@);
        }
        taken.set(next, true);
        order.push(target.clone());
        current = target.clone();
    }
}

} // verus!
