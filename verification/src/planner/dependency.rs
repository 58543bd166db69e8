//! What has to come before what among the tasks of a play.

use vstd::prelude::*;
use crate::planner::error::{PlanError, PlanErrorView};
use crate::text::{contains_string, join3, str_eq};
use crate::types::graph::{
    acyclic, edges_in_range, graph_add_edge, graph_add_node, graph_edges, graph_new,
    graph_nodes, graph_toposort, lemma_node_of, lemma_topological_order_excludes_cycles,
    node_of, on_cycle, DependencyEdge, DependencyGraph, TaskNodes,
};
use crate::types::parsed::{find_text, lookup_text, ParsedTask, ParsedTaskView};
use crate::types::plan::DependencyType;

verus! {

/// Whether both tasks have a string under their key and it is the same.
pub open spec fn same_text_arg(
    first: ParsedTaskView,
    first_key: Seq<char>,
    second: ParsedTaskView,
    second_key: Seq<char>,
) -> bool {
    lookup_text(first.args, first_key) is Some && lookup_text(first.args, first_key)
        == lookup_text(second.args, second_key)
}

/// Why `second` has to wait for `first` though it does not say so: it reads
/// the file that `first` writes, it manages the service of the package that
/// `first` installs, or it edits the file that `first` creates.
pub open spec fn implicit_dependency(first: ParsedTaskView, second: ParsedTaskView) -> Option<
    DependencyType,
> {
    if same_text_arg(first, "dest"@, second, "src"@) {
        Some(DependencyType::FileOutput)
    } else if first.module == "package"@ && second.module == "service"@ && same_text_arg(
        first,
        "name"@,
        second,
        "name"@,
    ) {
        Some(DependencyType::ServicePackage)
    } else if first.module == "file"@ && second.module == "lineinfile"@ && same_text_arg(
        first,
        "path"@,
        second,
        "path"@,
    ) {
        Some(DependencyType::FileOutput)
    } else {
        None
    }
}

/// The ids of the tasks, in their order.
pub open spec fn task_ids(tasks: Seq<ParsedTaskView>) -> Seq<Seq<char>> {
    tasks.map_values(|t: ParsedTaskView| t.id)
}

/// Whether dependency `d` of task `t` names no task.
pub open spec fn is_unknown_dependency(tasks: Seq<ParsedTaskView>, t: int, d: int) -> bool {
    &&& 0 <= t < tasks.len()
    &&& 0 <= d < tasks[t].dependencies.len()
    &&& !task_ids(tasks).contains(tasks[t].dependencies[d])
}

/// Whether every dependency of every task names a task.
pub open spec fn dependencies_known(tasks: Seq<ParsedTaskView>) -> bool {
    forall|t: int, d: int| !is_unknown_dependency(tasks, t, d)
}

/// Whether dependency `d` of task `t` names no task and is the first that
/// does so, going through the tasks and their dependencies in order.
pub open spec fn is_first_unknown_dependency(tasks: Seq<ParsedTaskView>, t: int, d: int) -> bool {
    &&& is_unknown_dependency(tasks, t, d)
    &&& forall|t2: int, d2: int|
        (t2 < t || (t2 == t && d2 < d)) ==> !is_unknown_dependency(tasks, t2, d2)
}

/// The edge for dependency `d` of task `t`: from the task that it names.
pub open spec fn explicit_edge(tasks: Seq<ParsedTaskView>, t: int, d: int) -> DependencyEdge {
    DependencyEdge {
        from: match node_of(task_ids(tasks), tasks[t].dependencies[d]) {
            Some(n) => n,
            None => 0,
        },
        to: t,
        kind: DependencyType::Explicit,
    }
}

/// The edges for the first `d` dependencies of task `t`.
pub open spec fn explicit_edges(tasks: Seq<ParsedTaskView>, t: int, d: int) -> Seq<DependencyEdge>
    decreases d,
{
    if d <= 0 {
        Seq::empty()
    } else {
        explicit_edges(tasks, t, d - 1).push(explicit_edge(tasks, t, d - 1))
    }
}

/// Whether one of the two tasks names the other as a dependency.
pub open spec fn explicitly_related(a: ParsedTaskView, b: ParsedTaskView) -> bool {
    a.dependencies.contains(b.id) || b.dependencies.contains(a.id)
}

/// The inferred edge from task `o` to task `t`, if there is one: the tasks
/// differ, neither names the other, and `t` depends on `o` implicitly.
pub open spec fn implicit_edge(tasks: Seq<ParsedTaskView>, o: int, t: int) -> Option<
    DependencyEdge,
> {
    if tasks[o].id != tasks[t].id && !explicitly_related(tasks[t], tasks[o]) {
        match implicit_dependency(tasks[o], tasks[t]) {
            Some(kind) => Some(DependencyEdge { from: o, to: t, kind }),
            None => None,
        }
    } else {
        None
    }
}

/// The inferred edges into task `t` from the first `o` tasks.
pub open spec fn implicit_edges(tasks: Seq<ParsedTaskView>, t: int, o: int) -> Seq<DependencyEdge>
    decreases o,
{
    if o <= 0 {
        Seq::empty()
    } else {
        match implicit_edge(tasks, o - 1, t) {
            Some(edge) => implicit_edges(tasks, t, o - 1).push(edge),
            None => implicit_edges(tasks, t, o - 1),
        }
    }
}

/// The edges into task `t`: the stated ones, then the inferred ones.
pub open spec fn edges_into(tasks: Seq<ParsedTaskView>, t: int) -> Seq<DependencyEdge> {
    explicit_edges(tasks, t, tasks[t].dependencies.len() as int) + implicit_edges(
        tasks,
        t,
        tasks.len() as int,
    )
}

/// The edges into the first `t` tasks.
pub open spec fn edges_upto(tasks: Seq<ParsedTaskView>, t: int) -> Seq<DependencyEdge>
    decreases t,
{
    if t <= 0 {
        Seq::empty()
    } else {
        edges_upto(tasks, t - 1) + edges_into(tasks, t - 1)
    }
}

/// The edges of the dependency graph of the tasks: for every task, in order,
/// one edge from each task that it names and one from each task that it
/// depends on implicitly.
pub open spec fn dependency_edges(tasks: Seq<ParsedTaskView>) -> Seq<DependencyEdge> {
    edges_upto(tasks, tasks.len() as int)
}

/// Whether the dependency graph of the tasks has no cycle.
pub open spec fn acyclic_tasks(tasks: Seq<ParsedTaskView>) -> bool {
    acyclic(dependency_edges(tasks))
}

/// What a cycle is reported with: a task that lies on it.
pub open spec fn cycle_message(task_id: Seq<char>) -> Seq<char> {
    "Cycle detected involving task '"@ + task_id + "'"@
}

/// The edges into a task are part of all edges.
proof fn lemma_edges_upto_grows(tasks: Seq<ParsedTaskView>, t: int, u: int)
    requires
        0 <= t <= u,
    ensures
        edges_upto(tasks, t).len() <= edges_upto(tasks, u).len(),
    decreases u - t,
{
    if t < u {
        lemma_edges_upto_grows(tasks, t, u - 1);
    }
}

/// The inferred edges into a task grow with the tasks looked at.
proof fn lemma_implicit_edges_grow(tasks: Seq<ParsedTaskView>, t: int, o: int, p: int)
    requires
        0 <= o <= p,
    ensures
        implicit_edges(tasks, t, o).len() <= implicit_edges(tasks, t, p).len(),
    decreases p - o,
{
    if o < p {
        lemma_implicit_edges_grow(tasks, t, o, p - 1);
    }
}

/// The stated edges into a task number as many as were looked at.
pub proof fn lemma_explicit_edges_len(tasks: Seq<ParsedTaskView>, t: int, d: int)
    requires
        0 <= d,
    ensures
        explicit_edges(tasks, t, d).len() == d,
    decreases d,
{
    if d > 0 {
        lemma_explicit_edges_len(tasks, t, d - 1);
    }
}

pub struct DependencyAnalyzer;

impl DependencyAnalyzer {
    pub fn new() -> (r: Self) {
        DependencyAnalyzer
    }

    /// Whether both tasks have a string under their key and it is the same.
    fn shares_text(
        &self,
        first: &ParsedTask,
        first_key: &str,
        second: &ParsedTask,
        second_key: &str,
    ) -> (r: bool)
        ensures
            r == same_text_arg(first.deep_view(), first_key@, second.deep_view(), second_key@),
    {
        match (find_text(&first.args, first_key), find_text(&second.args, second_key)) {
            (Some(a), Some(b)) => str_eq(a.as_str(), b.as_str()),
            _ => false,
        }
    }

    /// Why `task2` has to wait for `task1` though it does not say so.
    pub fn detect_implicit_dependency(&self, task1: &ParsedTask, task2: &ParsedTask) -> (r: Option<
        DependencyType,
    >)
        ensures
            r == implicit_dependency(task1.deep_view(), task2.deep_view()),
    {
        if self.shares_text(task1, "dest", task2, "src") {
            return Some(DependencyType::FileOutput);
        }
        if str_eq(task1.module.as_str(), "package") && str_eq(task2.module.as_str(), "service")
            && self.shares_text(task1, "name", task2, "name") {
            return Some(DependencyType::ServicePackage);
        }
        if str_eq(task1.module.as_str(), "file") && str_eq(task2.module.as_str(), "lineinfile")
            && self.shares_text(task1, "path", task2, "path") {
            return Some(DependencyType::FileOutput);
        }
        None
    }

    /// The first dependency that names no task, if there is one.
    fn find_unknown_dependency(&self, tasks: &Vec<ParsedTask>, index: &TaskNodes) -> (r: Option<
        String,
    >)
        requires
            index.ids.deep_view() == task_ids(tasks.deep_view()),
        ensures
            match r {
                Some(id) => exists|t: int, d: int|
                    is_first_unknown_dependency(tasks.deep_view(), t, d) && id@
                        == tasks.deep_view()[t].dependencies[d],
                None => dependencies_known(tasks.deep_view()),
            },
    {
        let ghost view = tasks.deep_view();
        let mut t: usize = 0;
        while t < tasks.len()
            invariant
                t <= tasks.len(),
                view == tasks.deep_view(),
                index.ids.deep_view() == task_ids(view),
                forall|t2: int, d2: int| t2 < t ==> !is_unknown_dependency(view, t2, d2),
            decreases tasks.len() - t,
        {
            let task = &tasks[t];
            let mut d: usize = 0;
            while d < task.dependencies.len()
                invariant
                    t < tasks.len(),
                    d <= task.dependencies.len(),
                    view == tasks.deep_view(),
                    task.deep_view() == view[t as int],
                    index.ids.deep_view() == task_ids(view),
                    forall|t2: int, d2: int|
                        (t2 < t || (t2 == t && d2 < d)) ==> !is_unknown_dependency(view, t2, d2),
                decreases task.dependencies.len() - d,
            {
                if !index.contains_key(task.dependencies[d].as_str()) {
                    assert(is_first_unknown_dependency(view, t as int, d as int));
                    return Some(task.dependencies[d].clone());
                }
                d += 1;
            }
            t += 1;
        }
        None
    }

    /// The dependency graph of the tasks: a node for every task and the
    /// edges of `dependency_edges`. It fails where a dependency names no
    /// task, and where the edges hold a cycle.
    pub fn analyze(&self, tasks: &Vec<ParsedTask>) -> (r: Result<DependencyGraph, PlanError>)
        requires
            tasks.len() < u32::MAX,
            dependency_edges(tasks.deep_view()).len() < u32::MAX,
        ensures
            r is Ok <==> dependencies_known(tasks.deep_view()) && acyclic(
                dependency_edges(tasks.deep_view()),
            ),
            r matches Ok(graph) ==> acyclic(graph.edges()),
            match r {
                Ok(graph) => {
                    &&& graph.wf()
                    &&& graph.nodes() == task_ids(tasks.deep_view())
                    &&& graph.edges() == dependency_edges(tasks.deep_view())
                },
                Err(e) => match e.deep_view() {
                    PlanErrorView::UnknownTaskDependency { task_id } => exists|t: int, d: int|
                        is_first_unknown_dependency(tasks.deep_view(), t, d) && task_id
                            == tasks.deep_view()[t].dependencies[d],
                    PlanErrorView::CircularDependency { cycle } => {
                        &&& dependencies_known(tasks.deep_view())
                        &&& exists|n: int|
                            0 <= n < tasks.len() && on_cycle(
                                dependency_edges(tasks.deep_view()),
                                n,
                            ) && cycle == cycle_message(#[trigger] tasks.deep_view()[n].id)
                    },
                    _ => false,
                },
            },
    {
        let ghost view = tasks.deep_view();
        let ghost ids = task_ids(view);
        let mut graph = graph_new();
        let mut t: usize = 0;
        assert(graph_nodes(graph) =~= ids.take(0));
        while t < tasks.len()
            invariant
                t <= tasks.len() < u32::MAX,
                view == tasks.deep_view(),
                ids == task_ids(view),
                graph_nodes(graph) == ids.take(t as int),
                graph_edges(graph) == Seq::<DependencyEdge>::empty(),
            decreases tasks.len() - t,
        {
            graph_add_node(&mut graph, tasks[t].id.clone());
            assert(ids.take(t + 1) =~= ids.take(t as int).push(ids[t as int]));
            t += 1;
        }
        assert(ids.take(tasks.len() as int) =~= ids);
        let found = DependencyGraph::new(graph);
        let mut graph = found.graph;
        let index = found.task_nodes;
        match self.find_unknown_dependency(tasks, &index) {
            Some(task_id) => {
                let error = PlanError::UnknownTaskDependency { task_id };
                proof {
                    let (t, d) = choose|t: int, d: int|
                        is_first_unknown_dependency(view, t, d) && task_id@
                            == view[t].dependencies[d];
                    assert(is_unknown_dependency(view, t, d));
                    assert(!dependencies_known(view));
                }
                return Err(error);
            },
            None => {},
        }
        let mut t: usize = 0;
        while t < tasks.len()
            invariant
                t <= tasks.len(),
                view == tasks.deep_view(),
                ids == task_ids(view),
                index.ids.deep_view() == ids,
                dependencies_known(view),
                dependency_edges(view).len() < u32::MAX,
                graph_nodes(graph) == ids,
                graph_edges(graph) == edges_upto(view, t as int),
                edges_in_range(graph_edges(graph), ids.len()),
            decreases tasks.len() - t,
        {
            let task = &tasks[t];
            let ghost base = edges_upto(view, t as int);
            proof {
                lemma_edges_upto_grows(view, t + 1, tasks.len() as int);
                lemma_explicit_edges_len(view, t as int, task.dependencies.len() as int);
            }
            let mut d: usize = 0;
            assert(graph_edges(graph) =~= base + explicit_edges(view, t as int, 0));
            while d < task.dependencies.len()
                invariant
                    t < tasks.len(),
                    d <= task.dependencies.len(),
                    view == tasks.deep_view(),
                    task.deep_view() == view[t as int],
                    ids == task_ids(view),
                    index.ids.deep_view() == ids,
                    dependencies_known(view),
                    base == edges_upto(view, t as int),
                    (base + edges_into(view, t as int)).len() < u32::MAX,
                    explicit_edges(view, t as int, task.dependencies.len() as int).len()
                        == task.dependencies.len(),
                    graph_nodes(graph) == ids,
                    graph_edges(graph) == base + explicit_edges(view, t as int, d as int),
                    edges_in_range(graph_edges(graph), ids.len()),
                decreases task.dependencies.len() - d,
            {
                proof {
                    lemma_node_of(ids, view[t as int].dependencies[d as int]);
                    assert(!is_unknown_dependency(view, t as int, d as int));
                    lemma_explicit_edges_len(view, t as int, d as int);
                }
                match index.get(task.dependencies[d].as_str()) {
                    Some(from) => {
                        graph_add_edge(&mut graph, from, t, DependencyType::Explicit);
                        assert(graph_edges(graph) =~= base + explicit_edges(
                            view,
                            t as int,
                            d + 1,
                        ));
                    },
                    None => {
                        assert(false);
                    },
                }
                d += 1;
            }
            let ghost stated = base + explicit_edges(
                view,
                t as int,
                task.dependencies.len() as int,
            );
            let mut o: usize = 0;
            assert(graph_edges(graph) =~= stated + implicit_edges(view, t as int, 0));
            while o < tasks.len()
                invariant
                    t < tasks.len(),
                    o <= tasks.len(),
                    view == tasks.deep_view(),
                    task.deep_view() == view[t as int],
                    ids == task_ids(view),
                    base == edges_upto(view, t as int),
                    stated == base + explicit_edges(
                        view,
                        t as int,
                        task.dependencies.len() as int,
                    ),
                    (base + edges_into(view, t as int)).len() < u32::MAX,
                    graph_nodes(graph) == ids,
                    graph_edges(graph) == stated + implicit_edges(view, t as int, o as int),
                    edges_in_range(graph_edges(graph), ids.len()),
                decreases tasks.len() - o,
            {
                let other = &tasks[o];
                proof {
                    lemma_implicit_edges_grow(view, t as int, o + 1, tasks.len() as int);
                }
                if !str_eq(other.id.as_str(), task.id.as_str()) && !contains_string(
                    &task.dependencies,
                    other.id.as_str(),
                ) && !contains_string(&other.dependencies, task.id.as_str()) {
                    match self.detect_implicit_dependency(other, task) {
                        Some(kind) => {
                            graph_add_edge(&mut graph, o, t, kind);
                            assert(graph_edges(graph) =~= stated + implicit_edges(
                                view,
                                t as int,
                                o + 1,
                            ));
                        },
                        None => {},
                    }
                }
                o += 1;
            }
            assert(graph_edges(graph) =~= edges_upto(view, t + 1));
            t += 1;
        }
        match graph_toposort(&graph) {
            Ok(order) => {
                proof {
                    lemma_topological_order_excludes_cycles(
                        order@.map_values(|n: usize| n as int),
                        graph_edges(graph),
                        ids.len(),
                    );
                }
                Ok(DependencyGraph { graph, task_nodes: index })
            },
            Err(node) => {
                let cycle = join3("Cycle detected involving task '", tasks[node].id.as_str(), "'");
                let error = PlanError::CircularDependency { cycle };
                proof {
                    assert(on_cycle(dependency_edges(view), node as int));
                    assert(!acyclic(dependency_edges(view)));
                    assert(error.deep_view() == PlanErrorView::CircularDependency {
                        cycle: cycle_message(view[node as int].id),
                    });
                }
                Err(error)
            },
        }
    }
}

impl Default for DependencyAnalyzer {
    fn default() -> (r: Self) {
        DependencyAnalyzer
    }
}

} // verus!
