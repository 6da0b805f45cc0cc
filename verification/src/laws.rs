//! What holds of every document, of every graph and of every run: what a
//! document is read from, which edges the execution order depends on, and
//! how a run goes on after each outcome.

use vstd::prelude::*;
use crate::dispatcher::{DispatchActionView, DispatchErrorView, Phase, RunState, StepOutcomeView, Summary};
use crate::document::{edge_of, graph_of, list_member, node_of, text_member};
use crate::graph::{EdgeView, GraphView, default_graph_view};
use crate::paths::{SkillEntryView, skill_binary_text};
use crate::walker::{
    WalkError, execution_order, first_edge_from, has_unique_start, is_end_node,
    is_first_edge_from, is_trail, lemma_first_edge_unique, lemma_revisit_never_ends,
    lemma_steps_from, lemma_trail_ends, next_step, start_id, successor, walk, walk_ends,
};

verus! {

/// The edge at `i` is the first to leave `id`, so `id`'s successor is its target.
pub proof fn lemma_successor_is(edges: Seq<EdgeView>, id: Seq<char>, i: int)
    requires
        is_first_edge_from(edges, id, i),
    ensures
        first_edge_from(edges, id) == Some(i),
        successor(edges, id) == Some(edges[i].to_id),
{
    let chosen = choose|k: int| is_first_edge_from(edges, id, k);
    lemma_first_edge_unique(edges, id, i, chosen);
}

/// Among the edges up to `j`, where `edges[j]` leaves `id`, one is the first
/// to do so.
pub proof fn lemma_first_edge_exists(edges: Seq<EdgeView>, id: Seq<char>, j: int)
    requires
        0 <= j < edges.len(),
        edges[j].leaves(id),
    ensures
        exists|i: int| 0 <= i <= j && is_first_edge_from(edges, id, i),
    decreases j,
{
    if exists|k: int| 0 <= k < j && (#[trigger] edges[k]).leaves(id) {
        let k = choose|k: int| 0 <= k < j && (#[trigger] edges[k]).leaves(id);
        lemma_first_edge_exists(edges, id, k);
        let i = choose|i: int| 0 <= i <= k && is_first_edge_from(edges, id, i);
        assert(0 <= i <= j && is_first_edge_from(edges, id, i));
    } else {
        assert(is_first_edge_from(edges, id, j));
    }
}

/// A node without a successor has no execution edge that leaves it.
pub proof fn lemma_no_successor(edges: Seq<EdgeView>, id: Seq<char>)
    requires
        successor(edges, id) is None,
    ensures
        forall|j: int| 0 <= j < edges.len() ==> !(#[trigger] edges[j]).leaves(id),
{
    assert forall|j: int| 0 <= j < edges.len() implies !(#[trigger] edges[j]).leaves(id) by {
        if edges[j].leaves(id) {
            lemma_first_edge_exists(edges, id, j);
        }
    }
}

/// Two graphs with the same nodes, in which every node has the same
/// successor, have the same execution order.
pub proof fn lemma_same_successors(g: GraphView, h: GraphView)
    requires
        g.nodes == h.nodes,
        forall|id: Seq<char>| successor(g.edges, id) == successor(h.edges, id),
    ensures
        execution_order(g) == execution_order(h),
{
    assert forall|id: Seq<char>| next_step(g, id) == next_step(h, id) by {
        assert(successor(g.edges, id) == successor(h.edges, id));
    }
    if has_unique_start(g.nodes) {
        let from = start_id(g.nodes);
        assert forall|fuel: nat| walk(g, from, fuel) == walk(h, from, fuel) by {
            lemma_same_walk(g, h, from, fuel);
        }
        if walk_ends(g, from) {
            let fuel = choose|fuel: nat| walk(g, from, fuel) is Some;
            assert(walk(h, from, fuel) is Some);
            lemma_steps_from(g, from, fuel);
            lemma_steps_from(h, from, fuel);
        } else if walk_ends(h, from) {
            let fuel = choose|fuel: nat| walk(h, from, fuel) is Some;
            assert(walk(g, from, fuel) is Some);
        }
    }
}

/// Where every node moves alike in two graphs, so do the walks.
pub proof fn lemma_same_walk(g: GraphView, h: GraphView, from: Seq<char>, fuel: nat)
    requires
        forall|id: Seq<char>| next_step(g, id) == next_step(h, id),
    ensures
        walk(g, from, fuel) == walk(h, from, fuel),
    decreases fuel,
{
    assert(next_step(g, from) == next_step(h, from));
    match next_step(g, from) {
        None => {},
        Some(next) => {
            if fuel > 0 {
                lemma_same_walk(g, h, next, (fuel - 1) as nat);
            }
        },
    }
}

/// The execution edges of `edges`, in the same order.
pub open spec fn execution_edges(edges: Seq<EdgeView>) -> Seq<EdgeView> {
    edges.filter(|e: EdgeView| e.is_execution())
}

/// Leaving out the edges that are not execution edges changes no successor.
pub proof fn lemma_successor_of_execution_edges(edges: Seq<EdgeView>, id: Seq<char>)
    ensures
        successor(execution_edges(edges), id) == successor(edges, id),
    decreases edges.len(),
{
    reveal(Seq::filter);
    let kept = execution_edges(edges);
    if edges.len() == 0 {
        assert(first_edge_from(edges, id) is None);
        assert(first_edge_from(kept, id) is None);
    } else {
        let front = edges.drop_last();
        let last = edges.last();
        let kept_front = execution_edges(front);
        lemma_successor_of_execution_edges(front, id);
        assert(kept == if last.is_execution() {
            kept_front.push(last)
        } else {
            kept_front
        });
        match first_edge_from(front, id) {
            Some(i) => {
                assert(is_first_edge_from(front, id, i));
                assert(is_first_edge_from(edges, id, i)) by {
                    assert(edges[i] == front[i]);
                    assert forall|j: int| 0 <= j < i implies !(#[trigger] edges[j]).leaves(id) by {
                        assert(edges[j] == front[j]);
                    }
                }
                lemma_successor_is(edges, id, i);
                let k = first_edge_from(kept_front, id)->0;
                assert(is_first_edge_from(kept_front, id, k));
                assert(is_first_edge_from(kept, id, k)) by {
                    assert(kept[k] == kept_front[k]);
                    assert forall|j: int| 0 <= j < k implies !(#[trigger] kept[j]).leaves(id) by {
                        assert(kept[j] == kept_front[j]);
                    }
                }
                lemma_successor_is(kept, id, k);
            },
            None => {
                lemma_no_successor(front, id);
                lemma_no_successor(kept_front, id);
                if last.leaves(id) {
                    let at = edges.len() - 1;
                    assert(is_first_edge_from(edges, id, at)) by {
                        assert forall|j: int| 0 <= j < at implies !(#[trigger] edges[j]).leaves(
                            id,
                        ) by {
                            assert(edges[j] == front[j]);
                        }
                    }
                    lemma_successor_is(edges, id, at);
                    let kept_at = kept.len() - 1;
                    assert(kept[kept_at] == last);
                    assert(is_first_edge_from(kept, id, kept_at)) by {
                        assert forall|j: int| 0 <= j < kept_at implies !(#[trigger] kept[j]).leaves(
                            id,
                        ) by {
                            assert(kept[j] == kept_front[j]);
                        }
                    }
                    lemma_successor_is(kept, id, kept_at);
                } else {
                    assert forall|i: int| !is_first_edge_from(edges, id, i) by {
                        if is_first_edge_from(edges, id, i) {
                            if i < edges.len() - 1 {
                                assert(edges[i] == front[i]);
                            }
                        }
                    }
                    assert forall|i: int| !is_first_edge_from(kept, id, i) by {
                        if is_first_edge_from(kept, id, i) {
                            if i < kept_front.len() {
                                assert(kept[i] == kept_front[i]);
                            }
                        }
                    }
                }
            },
        }
    }
}

/// Only execution edges count: a graph and the graph left when every other
/// edge is taken out have the same execution order.
pub proof fn other_edges_are_ignored(g: GraphView)
    ensures
        execution_order(GraphView { nodes: g.nodes, edges: execution_edges(g.edges) })
            == execution_order(g),
{
    let h = GraphView { nodes: g.nodes, edges: execution_edges(g.edges) };
    assert forall|id: Seq<char>| successor(h.edges, id) == successor(g.edges, id) by {
        lemma_successor_of_execution_edges(g.edges, id);
    }
    lemma_same_successors(h, g);
}

/// Of the execution edges that leave one node only the first counts: taking
/// out the edge at `later`, which leaves the node that the execution edge at
/// `earlier` leaves before it, changes nothing in the execution order.
pub proof fn later_branch_is_ignored(g: GraphView, earlier: int, later: int)
    requires
        0 <= earlier < later < g.edges.len(),
        g.edges[earlier].leaves(g.edges[later].from_id),
    ensures
        execution_order(GraphView { nodes: g.nodes, edges: g.edges.remove(later) })
            == execution_order(g),
{
    let rest = g.edges.remove(later);
    let h = GraphView { nodes: g.nodes, edges: rest };
    assert forall|id: Seq<char>| successor(rest, id) == successor(g.edges, id) by {
        match first_edge_from(g.edges, id) {
            Some(i) => {
                assert(is_first_edge_from(g.edges, id, i));
                if i == later {
                    assert(g.edges[earlier].leaves(id));
                }
                let at = if i < later {
                    i
                } else {
                    i - 1
                };
                assert(is_first_edge_from(rest, id, at)) by {
                    assert(rest[at] == g.edges[i]);
                    assert forall|j: int| 0 <= j < at implies !(#[trigger] rest[j]).leaves(id) by {
                        if j < later {
                            assert(rest[j] == g.edges[j]);
                        } else {
                            assert(rest[j] == g.edges[j + 1]);
                        }
                    }
                }
                lemma_successor_is(rest, id, at);
                lemma_successor_is(g.edges, id, i);
            },
            None => {
                lemma_no_successor(g.edges, id);
                assert forall|i: int| !is_first_edge_from(rest, id, i) by {
                    if is_first_edge_from(rest, id, i) {
                        if i < later {
                            assert(rest[i] == g.edges[i]);
                        } else {
                            assert(rest[i] == g.edges[i + 1]);
                        }
                    }
                }
            },
        }
    }
    lemma_same_successors(h, g);
}

/// Where the first execution edge that leaves the only start node reaches an
/// end node, there is nothing to run. This holds of a graph of one start
/// node, one end node and a single execution edge between them.
pub proof fn start_to_end_runs_nothing(g: GraphView)
    requires
        has_unique_start(g.nodes),
        successor(g.edges, start_id(g.nodes)) is Some,
        is_end_node(g.nodes, successor(g.edges, start_id(g.nodes))->0),
    ensures
        execution_order(g) == Ok::<Seq<Seq<char>>, WalkError>(Seq::empty()),
{
    let from = start_id(g.nodes);
    assert(next_step(g, from) is None);
    assert(walk(g, from, 0) == Some(Seq::<Seq<char>>::empty()));
    lemma_steps_from(g, from, 0);
}

/// A start node that no execution edge leaves has nothing to run either.
pub proof fn dead_end_at_start_runs_nothing(g: GraphView)
    requires
        has_unique_start(g.nodes),
        forall|j: int| 0 <= j < g.edges.len() ==> !(#[trigger] g.edges[j]).leaves(start_id(g.nodes)),
    ensures
        execution_order(g) == Ok::<Seq<Seq<char>>, WalkError>(Seq::empty()),
{
    let from = start_id(g.nodes);
    assert forall|i: int| !is_first_edge_from(g.edges, from, i) by {
        if is_first_edge_from(g.edges, from, i) {
            assert(g.edges[i].leaves(from));
        }
    }
    assert(next_step(g, from) is None);
    assert(walk(g, from, 0) == Some(Seq::<Seq<char>>::empty()));
    lemma_steps_from(g, from, 0);
}

/// Without exactly one start node there is no execution order, whatever the
/// edges are.
pub proof fn no_start_is_an_error(g: GraphView)
    requires
        !has_unique_start(g.nodes),
    ensures
        execution_order(g) == Err::<Seq<Seq<char>>, WalkError>(WalkError::NoStartNode),
{
}

/// The execution order is the trail of the walk: where a trail leads from
/// the start node to a node at which the walk stops, the order holds the
/// trail's entries after the start node, each once for each visit and in the
/// order of the visits. So a chain of execution edges from the start node
/// over `A` and `B` to an end node gives `A`, then `B`.
pub proof fn trail_is_the_order(g: GraphView, trail: Seq<Seq<char>>)
    requires
        has_unique_start(g.nodes),
        is_trail(g, trail),
        trail[0] == start_id(g.nodes),
        next_step(g, trail.last()) is None,
    ensures
        execution_order(g) == Ok::<Seq<Seq<char>>, WalkError>(trail.drop_first()),
{
    lemma_trail_ends(g, trail);
}

/// A walk that comes back to a node that it has left has no end, and the
/// graph has no execution order.
pub proof fn revisit_is_a_cycle(g: GraphView, trail: Seq<Seq<char>>, earlier: int)
    requires
        has_unique_start(g.nodes),
        is_trail(g, trail),
        trail[0] == start_id(g.nodes),
        0 <= earlier < trail.len() - 1,
        trail[earlier] == trail.last(),
    ensures
        execution_order(g) == Err::<Seq<Seq<char>>, WalkError>(WalkError::Cycle),
{
    lemma_revisit_never_ends(g, trail, earlier);
}

/// Two lists of JSON values read alike as nodes, place by place.
pub open spec fn same_nodes(a: Option<Seq<serde_json::Value>>, b: Option<Seq<serde_json::Value>>) -> bool {
    match (a, b) {
        (Some(left), Some(right)) => left.len() == right.len() && forall|i: int|
            0 <= i < left.len() ==> node_of(#[trigger] left[i]) == node_of(right[i]),
        (None, None) => true,
        _ => false,
    }
}

/// Two lists of JSON values read alike as edges, place by place.
pub open spec fn same_edges(a: Option<Seq<serde_json::Value>>, b: Option<Seq<serde_json::Value>>) -> bool {
    match (a, b) {
        (Some(left), Some(right)) => left.len() == right.len() && forall|i: int|
            0 <= i < left.len() ==> edge_of(#[trigger] left[i]) == edge_of(right[i]),
        (None, None) => true,
        _ => false,
    }
}

/// A node is read from its `id` and its `skillType` alone: whatever else two
/// objects hold, where they agree on these two they give the same node.
pub proof fn node_reads_two_members(a: serde_json::Value, b: serde_json::Value)
    requires
        text_member(a, "id"@) == text_member(b, "id"@),
        text_member(a, "skillType"@) == text_member(b, "skillType"@),
    ensures
        node_of(a) == node_of(b),
{
}

/// An edge is read from its `fromSkillId`, `toSkillId` and `edgeType` alone.
pub proof fn edge_reads_three_members(a: serde_json::Value, b: serde_json::Value)
    requires
        text_member(a, "fromSkillId"@) == text_member(b, "fromSkillId"@),
        text_member(a, "toSkillId"@) == text_member(b, "toSkillId"@),
        text_member(a, "edgeType"@) == text_member(b, "edgeType"@),
    ensures
        edge_of(a) == edge_of(b),
{
}

/// What a document holds beside its nodes and edges, and what these hold
/// beside their texts, is ignored: two documents whose lists under `nodes`
/// read alike, and whose lists under `edges` do, are the same graph or are
/// refused for the same reason.
pub proof fn unknown_fields_are_ignored(a: serde_json::Value, b: serde_json::Value)
    requires
        same_nodes(list_member(a, "nodes"@), list_member(b, "nodes"@)),
        same_edges(list_member(a, "edges"@), list_member(b, "edges"@)),
    ensures
        graph_of(a) == graph_of(b),
{
    if list_member(a, "nodes"@) is Some {
        let left = list_member(a, "nodes"@)->0;
        let right = list_member(b, "nodes"@)->0;
        assert(left.map_values(|v| node_of(v)) =~= right.map_values(|v| node_of(v)));
    }
    if list_member(a, "edges"@) is Some {
        let left = list_member(a, "edges"@)->0;
        let right = list_member(b, "edges"@)->0;
        assert(left.map_values(|v| edge_of(v)) =~= right.map_values(|v| edge_of(v)));
    }
}

/// Each outcome leaves a valid run valid.
pub proof fn run_stays_valid(state: RunState, outcome: StepOutcomeView)
    requires
        state.is_valid(),
    ensures
        state.after(outcome).is_valid(),
        state.after(outcome).order == state.order,
{
}

/// A run that is over stays over: whatever is reported to it afterwards, it
/// asks for no launch and its verdict does not change.
pub proof fn finished_run_stays_finished(state: RunState, outcomes: Seq<StepOutcomeView>)
    requires
        state.phase is Done,
    ensures
        state.replay(outcomes) == state,
    decreases outcomes.len(),
{
    if outcomes.len() > 0 {
        finished_run_stays_finished(state, outcomes.drop_first());
    }
}

/// The first step that does not exit with code zero ends the run: the
/// verdict names that step and its exit code, and no later report brings
/// another launch.
pub proof fn failed_step_stops_run(
    state: RunState,
    exit_code: Option<i32>,
    later: Seq<StepOutcomeView>,
)
    requires
        state.is_valid(),
        state.phase is Waiting,
        exit_code != Some(0i32),
    ensures
        state.after(StepOutcomeView::Exited(exit_code)).replay(later).action()
            == DispatchActionView::Finished(
            Err(
                DispatchErrorView::StepFailed {
                    id: state.order[state.phase->Waiting_0 as int],
                    exit_code,
                },
            ),
        ),
{
    finished_run_stays_finished(state.after(StepOutcomeView::Exited(exit_code)), later);
}

/// A step that cannot be started ends the run in the same way, with the
/// cause of the failure.
pub proof fn failed_launch_stops_run(
    state: RunState,
    cause: Seq<char>,
    later: Seq<StepOutcomeView>,
)
    requires
        state.is_valid(),
        state.phase is Waiting,
    ensures
        state.after(StepOutcomeView::LaunchFailed(cause)).replay(later).action()
            == DispatchActionView::Finished(
            Err(
                DispatchErrorView::ProcessLaunch {
                    id: state.order[state.phase->Waiting_0 as int],
                    cause,
                },
            ),
        ),
{
    finished_run_stays_finished(state.after(StepOutcomeView::LaunchFailed(cause)), later);
}

/// Every outcome of `outcomes` is an exit with code zero.
pub open spec fn all_succeed(outcomes: Seq<StepOutcomeView>) -> bool {
    forall|k: int| 0 <= k < outcomes.len() ==> (#[trigger] outcomes[k]).is_success()
}

/// After `outcomes.len()` successes a run that waited for the step at `at`
/// waits for the step that many places later, or is over with every step run.
pub proof fn lemma_successes_move_on(state: RunState, outcomes: Seq<StepOutcomeView>)
    requires
        state.is_valid(),
        state.phase is Waiting,
        all_succeed(outcomes),
        state.phase->Waiting_0 + outcomes.len() <= state.order.len(),
    ensures
        state.replay(outcomes) == (RunState {
            order: state.order,
            phase: if state.phase->Waiting_0 + outcomes.len() < state.order.len() {
                Phase::Waiting(state.phase->Waiting_0 + outcomes.len())
            } else {
                Phase::Done(Ok(Summary { steps_run: state.order.len() as usize }))
            },
        }),
    decreases outcomes.len(),
{
    if outcomes.len() > 0 {
        let next = state.after(outcomes[0]);
        let rest = outcomes.drop_first();
        assert(outcomes[0].is_success());
        assert(all_succeed(rest)) by {
            assert forall|k: int| 0 <= k < rest.len() implies (#[trigger] rest[k]).is_success() by {
                assert(rest[k] == outcomes[k + 1]);
            }
        }
        if next.phase is Waiting {
            lemma_successes_move_on(next, rest);
        } else {
            finished_run_stays_finished(next, rest);
        }
    }
}

/// While every step succeeds the steps are launched in the order given, one
/// after the other: after `outcomes.len()` successes the run asks for the
/// step at that place of the order, by its name and at its binary's place.
pub proof fn steps_run_in_order(order: Seq<Seq<char>>, outcomes: Seq<StepOutcomeView>)
    requires
        all_succeed(outcomes),
        outcomes.len() < order.len(),
    ensures
        RunState::initial(order).replay(outcomes).action() == DispatchActionView::Launch(
            SkillEntryView {
                name: order[outcomes.len() as int],
                path: skill_binary_text(order[outcomes.len() as int]),
            },
        ),
{
    lemma_successes_move_on(RunState::initial(order), outcomes);
}

/// A run in which every step succeeds ends with a summary that counts them
/// all.
pub proof fn all_successes_complete_run(order: Seq<Seq<char>>, outcomes: Seq<StepOutcomeView>)
    requires
        all_succeed(outcomes),
        outcomes.len() == order.len(),
    ensures
        RunState::initial(order).replay(outcomes).action() == DispatchActionView::Finished(
            Ok(Summary { steps_run: order.len() as usize }),
        ),
{
    if order.len() > 0 {
        lemma_successes_move_on(RunState::initial(order), outcomes);
    }
}

/// The graph that a new bot starts with keeps the invariant of a document,
/// and has nothing to run.
pub proof fn default_graph_runs_nothing()
    ensures
        default_graph_view().is_well_formed(),
        execution_order(default_graph_view()) == Ok::<Seq<Seq<char>>, WalkError>(Seq::empty()),
{
    reveal_strlit("start");
    reveal_strlit("end");
    let g = default_graph_view();
    assert("start"@.len() != "end"@.len());
    assert(crate::walker::is_only_start(g.nodes, 0));
    assert(g.nodes[0].is_start());
    let chosen = choose|i: int| crate::walker::is_only_start(g.nodes, i);
    assert(chosen == 0);
    assert(g.edges[0].leaves(start_id(g.nodes)));
    assert(is_first_edge_from(g.edges, start_id(g.nodes), 0));
    lemma_successor_is(g.edges, start_id(g.nodes), 0);
    assert(g.nodes[1].id == "end"@ && g.nodes[1].is_end());
    start_to_end_runs_nothing(g);
}

} // verus!
