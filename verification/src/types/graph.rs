//! The dependency graph of a play's tasks.

use vstd::prelude::*;
use crate::text::str_eq;
use crate::types::plan::DependencyType;

verus! {

/// The graph of the graph library: nodes with a weight each, numbered in the
/// order in which they were added, and weighted edges between them.
#[verifier::external_type_specification]
#[verifier::external_body]
#[verifier::reject_recursive_types(N)]
#[verifier::reject_recursive_types(E)]
#[verifier::reject_recursive_types(Ty)]
#[verifier::reject_recursive_types(Ix)]
pub struct ExGraph<N, E, Ty, Ix>(petgraph::graph::Graph<N, E, Ty, Ix>);

/// The marker of a graph whose edges have a direction.
#[verifier::external_type_specification]
#[verifier::external_body]
pub struct ExDirected(petgraph::Directed);

/// An edge: the nodes that it leaves and enters, by their numbers, and why
/// the one has to come before the other.
pub struct DependencyEdge {
    pub from: int,
    pub to: int,
    pub kind: DependencyType,
}

/// The weights of the nodes of a graph, in the order of their numbers.
pub uninterp spec fn graph_nodes(graph: petgraph::Graph<String, DependencyType>) -> Seq<Seq<char>>;

/// The edges of a graph, in the order in which they were added.
pub uninterp spec fn graph_edges(graph: petgraph::Graph<String, DependencyType>) -> Seq<
    DependencyEdge,
>;

/// Whether some edge leads from `a` to `b`.
pub open spec fn has_edge(edges: Seq<DependencyEdge>, a: int, b: int) -> bool {
    exists|e: int| 0 <= e < edges.len() && (#[trigger] edges[e]).from == a && edges[e].to == b
}

/// Whether `path` is a walk along the edges: a node, and then as often as
/// one likes an edge from the last node to a next one.
pub open spec fn is_path(edges: Seq<DependencyEdge>, path: Seq<int>) -> bool {
    &&& path.len() >= 1
    &&& forall|k: int| 0 <= k < path.len() - 1 ==> has_edge(edges, #[trigger] path[k], path[k + 1])
}

/// Whether a walk leads from `a` to `b`. Every node reaches itself.
pub open spec fn reaches(edges: Seq<DependencyEdge>, a: int, b: int) -> bool {
    exists|path: Seq<int>| #[trigger] is_path(edges, path) && path[0] == a && path.last() == b
}

/// Whether a walk of at least one edge leads from `n` back to `n`.
pub open spec fn on_cycle(edges: Seq<DependencyEdge>, n: int) -> bool {
    exists|path: Seq<int>|
        #[trigger] is_path(edges, path) && path.len() >= 2 && path[0] == n && path.last() == n
}

/// Whether no node lies on a cycle.
pub open spec fn acyclic(edges: Seq<DependencyEdge>) -> bool {
    forall|n: int| !on_cycle(edges, n)
}

/// Whether every edge joins two of the nodes `0 .. node_count`.
pub open spec fn edges_in_range(edges: Seq<DependencyEdge>, node_count: nat) -> bool {
    forall|e: int|
        0 <= e < edges.len() ==> 0 <= (#[trigger] edges[e]).from < node_count && 0 <= edges[e].to
            < node_count
}

/// Whether `order` lists every node `0 .. node_count` once and no edge leads
/// from a node to one that is listed before it or is the node itself.
pub open spec fn is_topological_order(
    order: Seq<int>,
    edges: Seq<DependencyEdge>,
    node_count: nat,
) -> bool {
    &&& order.len() == node_count
    &&& forall|n: int| 0 <= n < node_count ==> order.contains(n)
    &&& forall|e: int, i: int, j: int|
        0 <= e < edges.len() && 0 <= i < order.len() && 0 <= j < order.len() && order[i] == (
        #[trigger] edges[e]).from && #[trigger] order[j] == edges[e].to ==> #[trigger] order[i]
            != order[j] && i < j
}

/// Along a walk of at least one edge every place of the start in a
/// topological order is before every place of the end.
proof fn lemma_walk_moves_forward(
    order: Seq<int>,
    edges: Seq<DependencyEdge>,
    node_count: nat,
    path: Seq<int>,
    k: int,
)
    requires
        is_topological_order(order, edges, node_count),
        edges_in_range(edges, node_count),
        is_path(edges, path),
        1 <= k < path.len(),
    ensures
        0 <= path[k] < node_count,
        forall|i: int, j: int|
            0 <= i < order.len() && 0 <= j < order.len() && order[i] == path[0] && order[j]
                == path[k] ==> i < j,
    decreases k,
{
    assert(has_edge(edges, path[k - 1], path[k]));
    let e = choose|e: int|
        0 <= e < edges.len() && (#[trigger] edges[e]).from == path[k - 1] && edges[e].to == path[k];
    assert(0 <= edges[e].to < node_count);
    if k > 1 {
        lemma_walk_moves_forward(order, edges, node_count, path, k - 1);
        let middle = path[k - 1];
        assert(order.contains(middle));
        let m = choose|m: int| 0 <= m < order.len() && order[m] == middle;
        assert forall|i: int, j: int|
            0 <= i < order.len() && 0 <= j < order.len() && order[i] == path[0] && order[j]
                == path[k] implies i < j by {
            assert(i < m);
            assert(order[m] == edges[e].from && order[j] == edges[e].to);
            assert(m < j);
        }
    } else {
        assert forall|i: int, j: int|
            0 <= i < order.len() && 0 <= j < order.len() && order[i] == path[0] && order[j]
                == path[k] implies i < j by {
            assert(order[i] == edges[e].from && order[j] == edges[e].to);
        }
    }
}

/// A graph that has a topological order has no cycle.
pub proof fn lemma_topological_order_excludes_cycles(
    order: Seq<int>,
    edges: Seq<DependencyEdge>,
    node_count: nat,
)
    requires
        is_topological_order(order, edges, node_count),
        edges_in_range(edges, node_count),
    ensures
        acyclic(edges),
{
    assert forall|n: int| !on_cycle(edges, n) by {
        if on_cycle(edges, n) {
            let path = choose|path: Seq<int>|
                #[trigger] is_path(edges, path) && path.len() >= 2 && path[0] == n && path.last()
                    == n;
            let k = path.len() - 1;
            lemma_walk_moves_forward(order, edges, node_count, path, k);
            assert(order.contains(n));
            let i = choose|i: int| 0 <= i < order.len() && order[i] == n;
            assert(i < i);
        }
    }
}

/// `Graph::new`: a directed graph without nodes and edges.
#[verifier::external_body]
pub(crate) fn graph_new() -> (graph: petgraph::Graph<String, DependencyType>)
    ensures
        graph_nodes(graph) == Seq::<Seq<char>>::empty(),
        graph_edges(graph) == Seq::<DependencyEdge>::empty(),
{
    petgraph::Graph::new()
}

/// `Graph::node_count`: the number of nodes.
#[verifier::external_body]
pub(crate) fn graph_node_count(graph: &petgraph::Graph<String, DependencyType>) -> (count: usize)
    ensures
        count == graph_nodes(*graph).len(),
{
    graph.node_count()
}

/// `Graph::edge_count`: the number of edges.
#[verifier::external_body]
pub(crate) fn graph_edge_count(graph: &petgraph::Graph<String, DependencyType>) -> (count: usize)
    ensures
        count == graph_edges(*graph).len(),
{
    graph.edge_count()
}

/// `Graph::node_weights`: the weights of the nodes, in the order of their
/// numbers.
#[verifier::external_body]
pub(crate) fn graph_node_ids(graph: &petgraph::Graph<String, DependencyType>) -> (ids: Vec<String>)
    ensures
        ids.deep_view() == graph_nodes(*graph),
{
    graph.node_weights().cloned().collect()
}

/// `Graph::raw_edges`: the edges in the order of their numbers, each with
/// the nodes that it leaves and enters and with its weight.
#[verifier::external_body]
pub(crate) fn graph_edge_list(graph: &petgraph::Graph<String, DependencyType>) -> (edges: Vec<
    (usize, usize, DependencyType),
>)
    ensures
        edges@.len() == graph_edges(*graph).len(),
        forall|i: int|
            0 <= i < edges@.len() ==> (DependencyEdge {
                from: (#[trigger] edges@[i]).0 as int,
                to: edges@[i].1 as int,
                kind: edges@[i].2,
            }) == graph_edges(*graph)[i],
{
    graph.raw_edges().iter().map(|e| (e.source().index(), e.target().index(), e.weight)).collect()
}

/// `Graph::add_node`: a new node after the others, with the number that it
/// got. The graph library numbers nodes in 32 bits and refuses the node that
/// would get the last number.
#[verifier::external_body]
pub(crate) fn graph_add_node(
    graph: &mut petgraph::Graph<String, DependencyType>,
    id: String,
) -> (node: usize)
    requires
        graph_nodes(*old(graph)).len() < u32::MAX,
    ensures
        graph_nodes(*final(graph)) == graph_nodes(*old(graph)).push(id@),
        graph_edges(*final(graph)) == graph_edges(*old(graph)),
        node == graph_nodes(*old(graph)).len(),
{
    graph.add_node(id).index()
}

/// `Graph::add_edge`: a new edge after the others, between two nodes that
/// exist. Parallel edges are kept. The graph library numbers edges in 32 bits
/// and refuses the edge that would get the last number.
#[verifier::external_body]
pub(crate) fn graph_add_edge(
    graph: &mut petgraph::Graph<String, DependencyType>,
    from: usize,
    to: usize,
    kind: DependencyType,
)
    requires
        from < graph_nodes(*old(graph)).len(),
        to < graph_nodes(*old(graph)).len(),
        graph_edges(*old(graph)).len() < u32::MAX,
    ensures
        graph_nodes(*final(graph)) == graph_nodes(*old(graph)),
        graph_edges(*final(graph)) == graph_edges(*old(graph)).push(
            (DependencyEdge { from: from as int, to: to as int, kind }),
        ),
{
    graph.add_edge(petgraph::graph::NodeIndex::new(from), petgraph::graph::NodeIndex::new(to), kind);
}

/// `petgraph::algo::toposort`: for a graph without cycles the nodes in an
/// order in which every node is before its successors, and otherwise a node
/// that lies on a cycle; an edge from a node to itself is a cycle.
#[verifier::external_body]
pub(crate) fn graph_toposort(graph: &petgraph::Graph<String, DependencyType>) -> (r: Result<
    Vec<usize>,
    usize,
>)
    ensures
        match r {
            Ok(order) => is_topological_order(
                order@.map_values(|n: usize| n as int),
                graph_edges(*graph),
                graph_nodes(*graph).len(),
            ),
            Err(node) => node < graph_nodes(*graph).len() && on_cycle(
                graph_edges(*graph),
                node as int,
            ),
        },
{
    match petgraph::algo::toposort(graph, None) {
        Ok(order) => Ok(order.into_iter().map(|n| n.index()).collect()),
        Err(cycle) => Err(cycle.node_id().index()),
    }
}

/// `petgraph::algo::has_path_connecting`: whether a walk along the edges
/// leads from one node to the other; a node is connected to itself.
#[verifier::external_body]
pub(crate) fn graph_has_path(
    graph: &petgraph::Graph<String, DependencyType>,
    from: usize,
    to: usize,
) -> (r: bool)
    requires
        from < graph_nodes(*graph).len(),
        to < graph_nodes(*graph).len(),
    ensures
        r == reaches(graph_edges(*graph), from as int, to as int),
{
    petgraph::algo::has_path_connecting(
        graph,
        petgraph::graph::NodeIndex::new(from),
        petgraph::graph::NodeIndex::new(to),
        None,
    )
}

/// The number of the last node with the given id, if there is one.
pub open spec fn node_of(ids: Seq<Seq<char>>, id: Seq<char>) -> Option<int>
    decreases ids.len(),
{
    if ids.len() == 0 {
        None
    } else if ids.last() == id {
        Some(ids.len() - 1)
    } else {
        node_of(ids.drop_last(), id)
    }
}

/// A node that `node_of` finds exists and has the id.
pub proof fn lemma_node_of(ids: Seq<Seq<char>>, id: Seq<char>)
    ensures
        match node_of(ids, id) {
            Some(n) => 0 <= n < ids.len() && ids[n] == id,
            None => !ids.contains(id),
        },
    decreases ids.len(),
{
    if ids.len() > 0 && ids.last() != id {
        lemma_node_of(ids.drop_last(), id);
        if node_of(ids, id) is None {
            assert forall|i: int| 0 <= i < ids.len() implies ids[i] != id by {
                if i < ids.len() - 1 {
                    assert(ids.drop_last()[i] == ids[i]);
                }
            }
        }
    }
}

/// The task ids of a graph by node number.
#[derive(Debug)]
pub struct TaskNodes {
    pub ids: Vec<String>,
}

impl TaskNodes {
    /// The number of the node of a task: of the last one, where several
    /// tasks share the id.
    pub fn get(&self, task_id: &str) -> (r: Option<usize>)
        ensures
            match r {
                Some(n) => node_of(self.ids.deep_view(), task_id@) == Some(n as int),
                None => node_of(self.ids.deep_view(), task_id@) is None,
            },
    {
        let mut i: usize = self.ids.len();
        assert(self.ids.deep_view().take(i as int) =~= self.ids.deep_view());
        while i > 0
            invariant
                i <= self.ids.len(),
                node_of(self.ids.deep_view(), task_id@) == node_of(
                    self.ids.deep_view().take(i as int),
                    task_id@,
                ),
            decreases i,
        {
            assert(self.ids.deep_view().take(i as int).last() == self.ids.deep_view()[i - 1]);
            assert(self.ids.deep_view().take(i as int).drop_last() =~= self.ids.deep_view().take(
                i - 1,
            ));
            if str_eq(self.ids[i - 1].as_str(), task_id) {
                return Some(i - 1);
            }
            i -= 1;
        }
        None
    }

    /// Whether a task with the id has a node.
    pub fn contains_key(&self, task_id: &str) -> (r: bool)
        ensures
            r == self.ids.deep_view().contains(task_id@),
    {
        proof {
            lemma_node_of(self.ids.deep_view(), task_id@);
        }
        self.get(task_id).is_some()
    }

    pub fn len(&self) -> (r: usize)
        ensures
            r == self.ids.len(),
    {
        self.ids.len()
    }
}

/// The tasks of a play as nodes and what has to come before what as edges.
#[derive(Debug)]
pub struct DependencyGraph {
    pub graph: petgraph::Graph<String, DependencyType>,
    pub task_nodes: TaskNodes,
}

impl DependencyGraph {
    /// The ids of the tasks, by node number.
    pub open spec fn nodes(&self) -> Seq<Seq<char>> {
        graph_nodes(self.graph)
    }

    /// The edges, in the order in which they were added.
    pub open spec fn edges(&self) -> Seq<DependencyEdge> {
        graph_edges(self.graph)
    }

    /// The index knows the nodes of the graph, and every edge joins two of
    /// them.
    pub open spec fn wf(&self) -> bool {
        &&& self.task_nodes.ids.deep_view() == self.nodes()
        &&& edges_in_range(self.edges(), self.nodes().len())
    }

    /// The graph with an index of its nodes by task id.
    pub fn new(graph: petgraph::Graph<String, DependencyType>) -> (r: Self)
        ensures
            r.graph == graph,
            r.task_nodes.ids.deep_view() == graph_nodes(graph),
    {
        let ids = graph_node_ids(&graph);
        DependencyGraph { graph, task_nodes: TaskNodes { ids } }
    }

    /// Whether the tasks `from` and `to` both have a node and a walk along
    /// the edges leads from the one to the other.
    pub open spec fn connects(&self, from: Seq<char>, to: Seq<char>) -> bool {
        match (
            node_of(self.task_nodes.ids.deep_view(), from),
            node_of(self.task_nodes.ids.deep_view(), to),
        ) {
            (Some(a), Some(b)) => a < self.nodes().len() && b < self.nodes().len() && reaches(
                self.edges(),
                a,
                b,
            ),
            _ => false,
        }
    }

    /// Whether the tasks `from` and `to` both have a node and a walk along
    /// the edges leads from the one to the other.
    pub fn has_path(&self, from: &str, to: &str) -> (r: bool)
        ensures
            r == self.connects(from@, to@),
    {
        match (self.task_nodes.get(from), self.task_nodes.get(to)) {
            (Some(a), Some(b)) => {
                let count = graph_node_count(&self.graph);
                if a < count && b < count {
                    graph_has_path(&self.graph, a, b)
                } else {
                    false
                }
            },
            _ => false,
        }
    }

    /// The edges in the order in which they were added: the node that each
    /// leaves, the node that it enters, and its kind.
    pub fn edge_list(&self) -> (r: Vec<(usize, usize, DependencyType)>)
        ensures
            r@.len() == self.edges().len(),
            forall|i: int|
                0 <= i < r@.len() ==> (DependencyEdge {
                    from: (#[trigger] r@[i]).0 as int,
                    to: r@[i].1 as int,
                    kind: r@[i].2,
                }) == self.edges()[i],
    {
        graph_edge_list(&self.graph)
    }

    /// The number of tasks.
    pub fn node_count(&self) -> (r: usize)
        ensures
            r == self.nodes().len(),
    {
        graph_node_count(&self.graph)
    }

    /// The number of edges.
    pub fn edge_count(&self) -> (r: usize)
        ensures
            r == self.edges().len(),
    {
        graph_edge_count(&self.graph)
    }
}

} // verus!
