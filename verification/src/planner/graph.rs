//! The dependency graph of planned tasks, and which of them may run side
//! by side.

use vstd::prelude::*;
use crate::planner::error::PlanError;
use crate::text::{contains_string, decimal, numbered, str_eq};
use crate::types::graph::{
    edges_in_range, graph_add_edge, graph_add_node, graph_edges, graph_new, graph_nodes,
    lemma_node_of, node_of, DependencyEdge, DependencyGraph,
};
use crate::types::parsed::{find_text, lookup_text};
use crate::types::plan::{DependencyType, ParallelGroup, ParallelGroupView, TaskPlan, TaskPlanView};

verus! {

/// The ids of the tasks, in their order.
pub open spec fn plan_ids(tasks: Seq<TaskPlanView>) -> Seq<Seq<char>> {
    tasks.map_values(|t: TaskPlanView| t.task_id)
}

/// The edge for dependency `d` of task `t`, where it names a task: from
/// the last task with that id to the last task with the id of `t`.
pub open spec fn stated_edge(tasks: Seq<TaskPlanView>, t: int, d: int) -> Option<DependencyEdge> {
    match (
        node_of(plan_ids(tasks), tasks[t].dependencies[d]),
        node_of(plan_ids(tasks), tasks[t].task_id),
    ) {
        (Some(from), Some(to)) => Some(DependencyEdge { from, to, kind: DependencyType::Explicit }),
        _ => None,
    }
}

/// The edges for the first `d` dependencies of task `t`.
pub open spec fn stated_edges(tasks: Seq<TaskPlanView>, t: int, d: int) -> Seq<DependencyEdge>
    decreases d,
{
    if d <= 0 {
        Seq::empty()
    } else {
        match stated_edge(tasks, t, d - 1) {
            Some(edge) => stated_edges(tasks, t, d - 1).push(edge),
            None => stated_edges(tasks, t, d - 1),
        }
    }
}

/// The edges for the dependencies of the first `t` tasks.
pub open spec fn stated_edges_upto(tasks: Seq<TaskPlanView>, t: int) -> Seq<DependencyEdge>
    decreases t,
{
    if t <= 0 {
        Seq::empty()
    } else {
        stated_edges_upto(tasks, t - 1) + stated_edges(
            tasks,
            t - 1,
            tasks[t - 1].dependencies.len() as int,
        )
    }
}

/// The edges of the graph of planned tasks: one for every dependency that
/// names a task. A dependency that names none is passed over.
pub open spec fn plan_edges(tasks: Seq<TaskPlanView>) -> Seq<DependencyEdge> {
    stated_edges_upto(tasks, tasks.len() as int)
}

/// Whether the two tasks write the same file or manage the same service.
pub open spec fn conflicts(a: TaskPlanView, b: TaskPlanView) -> bool {
    ||| lookup_text(a.args, "dest"@) is Some && lookup_text(a.args, "dest"@) == lookup_text(
        b.args,
        "dest"@,
    )
    ||| a.module == "service"@ && b.module == "service"@ && lookup_text(a.args, "name"@) is Some
        && lookup_text(a.args, "name"@) == lookup_text(b.args, "name"@)
}

/// Whether the two tasks may run side by side: neither has to wait for the
/// other, both are safe to run in parallel, and they do not conflict.
pub open spec fn may_run_together(graph: DependencyGraph, a: TaskPlanView, b: TaskPlanView) -> bool {
    &&& !graph.connects(a.task_id, b.task_id)
    &&& !graph.connects(b.task_id, a.task_id)
    &&& a.can_run_parallel
    &&& b.can_run_parallel
    &&& !conflicts(a, b)
}

/// The ids that are spoken for and the members of the group of `seed`,
/// after the first `o` tasks were asked: a task joins where its id is not
/// spoken for and it may run together with `seed`.
pub open spec fn gathered(
    tasks: Seq<TaskPlanView>,
    graph: DependencyGraph,
    seed: TaskPlanView,
    visited: Seq<Seq<char>>,
    o: int,
) -> (Seq<Seq<char>>, Seq<Seq<char>>)
    decreases o,
{
    if o <= 0 {
        (visited.push(seed.task_id), seq![seed.task_id])
    } else {
        let (spoken, members) = gathered(tasks, graph, seed, visited, o - 1);
        let other = tasks[o - 1];
        if !spoken.contains(other.task_id) && may_run_together(graph, seed, other) {
            (spoken.push(other.task_id), members.push(other.task_id))
        } else {
            (spoken, members)
        }
    }
}

/// The group with the given number and members.
pub open spec fn parallel_group(index: nat, members: Seq<Seq<char>>) -> ParallelGroupView {
    ParallelGroupView {
        group_id: "group_"@ + decimal(index),
        tasks: members,
        max_parallelism: 4,
        shared_resources: Seq::empty(),
    }
}

/// The ids that are spoken for and the groups, after the first `t` tasks
/// were looked at: a task whose id is not spoken for and that is safe to
/// run in parallel founds a group, which is kept where another task joins.
pub open spec fn grouped(tasks: Seq<TaskPlanView>, graph: DependencyGraph, t: int) -> (
    Seq<Seq<char>>,
    Seq<ParallelGroupView>,
)
    decreases t,
{
    if t <= 0 {
        (Seq::empty(), Seq::empty())
    } else {
        let (visited, groups) = grouped(tasks, graph, t - 1);
        let task = tasks[t - 1];
        if visited.contains(task.task_id) || !task.can_run_parallel {
            (visited, groups)
        } else {
            let (spoken, members) = gathered(tasks, graph, task, visited, tasks.len() as int);
            if members.len() > 1 {
                (spoken, groups.push(parallel_group(groups.len(), members)))
            } else {
                (spoken, groups)
            }
        }
    }
}

/// The groups of tasks that may run side by side.
pub open spec fn parallel_groups(tasks: Seq<TaskPlanView>, graph: DependencyGraph) -> Seq<
    ParallelGroupView,
> {
    grouped(tasks, graph, tasks.len() as int).1
}

/// The edges of a part of the tasks are part of the edges.
proof fn lemma_stated_edges_upto_grow(tasks: Seq<TaskPlanView>, t: int, u: int)
    requires
        0 <= t <= u,
    ensures
        stated_edges_upto(tasks, t).len() <= stated_edges_upto(tasks, u).len(),
    decreases u - t,
{
    if t < u {
        lemma_stated_edges_upto_grow(tasks, t, u - 1);
    }
}

/// The edges of a part of the dependencies are part of the edges.
proof fn lemma_stated_edges_grow(tasks: Seq<TaskPlanView>, t: int, d: int, e: int)
    requires
        0 <= d <= e,
    ensures
        stated_edges(tasks, t, d).len() <= stated_edges(tasks, t, e).len(),
    decreases e - d,
{
    if d < e {
        lemma_stated_edges_grow(tasks, t, d, e - 1);
    }
}

pub struct DependencyGraphBuilder;

impl DependencyGraphBuilder {
    pub fn new() -> (r: Self) {
        DependencyGraphBuilder
    }

    /// The graph of the tasks: a node for every task and an edge for every
    /// dependency that names a task.
    pub fn build_from_tasks(&self, tasks: &Vec<TaskPlan>) -> (r: Result<DependencyGraph, PlanError>)
        requires
            tasks.len() < u32::MAX,
            plan_edges(tasks.deep_view()).len() < u32::MAX,
        ensures
            r matches Ok(graph) && {
                &&& graph.wf()
                &&& graph.nodes() == plan_ids(tasks.deep_view())
                &&& graph.edges() == plan_edges(tasks.deep_view())
            },
    {
        let ghost view = tasks.deep_view();
        let ghost ids = plan_ids(view);
        let mut graph = graph_new();
        let mut t: usize = 0;
        assert(graph_nodes(graph) =~= ids.take(0));
        while t < tasks.len()
            invariant
                t <= tasks.len() < u32::MAX,
                view == tasks.deep_view(),
                ids == plan_ids(view),
                graph_nodes(graph) == ids.take(t as int),
                graph_edges(graph) == Seq::<DependencyEdge>::empty(),
            decreases tasks.len() - t,
        {
            graph_add_node(&mut graph, tasks[t].task_id.clone());
            assert(ids.take(t + 1) =~= ids.take(t as int).push(ids[t as int]));
            t += 1;
        }
        assert(ids.take(tasks.len() as int) =~= ids);
        let found = DependencyGraph::new(graph);
        let mut graph = found.graph;
        let index = found.task_nodes;
        let mut t: usize = 0;
        while t < tasks.len()
            invariant
                t <= tasks.len(),
                view == tasks.deep_view(),
                ids == plan_ids(view),
                index.ids.deep_view() == ids,
                plan_edges(view).len() < u32::MAX,
                graph_nodes(graph) == ids,
                graph_edges(graph) == stated_edges_upto(view, t as int),
                edges_in_range(graph_edges(graph), ids.len()),
            decreases tasks.len() - t,
        {
            let task = &tasks[t];
            let ghost base = stated_edges_upto(view, t as int);
            proof {
                lemma_stated_edges_upto_grow(view, t + 1, tasks.len() as int);
                lemma_node_of(ids, view[t as int].task_id);
            }
            match index.get(task.task_id.as_str()) {
                Some(to) => {
                    let mut d: usize = 0;
                    assert(graph_edges(graph) =~= base + stated_edges(view, t as int, 0));
                    while d < task.dependencies.len()
                        invariant
                            t < tasks.len(),
                            d <= task.dependencies.len(),
                            view == tasks.deep_view(),
                            task.deep_view() == view[t as int],
                            ids == plan_ids(view),
                            index.ids.deep_view() == ids,
                            base == stated_edges_upto(view, t as int),
                            (base + stated_edges(
                                view,
                                t as int,
                                task.dependencies.len() as int,
                            )).len() < u32::MAX,
                            node_of(ids, view[t as int].task_id) == Some(to as int),
                            to < ids.len(),
                            graph_nodes(graph) == ids,
                            graph_edges(graph) == base + stated_edges(view, t as int, d as int),
                            edges_in_range(graph_edges(graph), ids.len()),
                        decreases task.dependencies.len() - d,
                    {
                        proof {
                            lemma_node_of(ids, view[t as int].dependencies[d as int]);
                            lemma_stated_edges_grow(
                                view,
                                t as int,
                                d + 1,
                                task.dependencies.len() as int,
                            );
                        }
                        match index.get(task.dependencies[d].as_str()) {
                            Some(from) => {
                                graph_add_edge(&mut graph, from, to, DependencyType::Explicit);
                                assert(graph_edges(graph) =~= base + stated_edges(
                                    view,
                                    t as int,
                                    d + 1,
                                ));
                            },
                            None => {},
                        }
                        d += 1;
                    }
                },
                None => {
                    assert(ids[t as int] == view[t as int].task_id);
                    assert(false);
                },
            }
            assert(graph_edges(graph) =~= stated_edges_upto(view, t + 1));
            t += 1;
        }
        Ok(DependencyGraph { graph, task_nodes: index })
    }

    /// The groups of tasks that may run side by side: see `grouped`.
    pub fn find_parallel_groups(
        &self,
        tasks: &Vec<TaskPlan>,
        dependency_graph: &DependencyGraph,
    ) -> (r: Vec<ParallelGroup>)
        ensures
            r.deep_view() == parallel_groups(tasks.deep_view(), *dependency_graph),
    {
        let ghost view = tasks.deep_view();
        let mut groups: Vec<ParallelGroup> = Vec::new();
        let mut visited: Vec<String> = Vec::new();
        let mut t: usize = 0;
        proof {
            assert(groups.deep_view() =~= Seq::<ParallelGroupView>::empty());
            assert(visited.deep_view() =~= Seq::<Seq<char>>::empty());
        }
        while t < tasks.len()
            invariant
                t <= tasks.len(),
                view == tasks.deep_view(),
                (visited.deep_view(), groups.deep_view()) == grouped(
                    view,
                    *dependency_graph,
                    t as int,
                ),
            decreases tasks.len() - t,
        {
            let task = &tasks[t];
            if !contains_string(&visited, task.task_id.as_str()) && task.can_run_parallel {
                let ghost start = visited.deep_view();
                let mut members: Vec<String> = Vec::new();
                members.push(task.task_id.clone());
                visited.push(task.task_id.clone());
                proof {
                    assert(members.deep_view() =~= seq![view[t as int].task_id]);
                    assert(visited.deep_view() =~= start.push(view[t as int].task_id));
                }
                let mut o: usize = 0;
                while o < tasks.len()
                    invariant
                        t < tasks.len(),
                        o <= tasks.len(),
                        view == tasks.deep_view(),
                        task.deep_view() == view[t as int],
                        (visited.deep_view(), members.deep_view()) == gathered(
                            view,
                            *dependency_graph,
                            view[t as int],
                            start,
                            o as int,
                        ),
                    decreases tasks.len() - o,
                {
                    let other = &tasks[o];
                    if !contains_string(&visited, other.task_id.as_str()) && self.can_run_parallel(
                        task,
                        other,
                        dependency_graph,
                    ) {
                        let ghost spoken = visited.deep_view();
                        let ghost joined = members.deep_view();
                        members.push(other.task_id.clone());
                        visited.push(other.task_id.clone());
                        proof {
                            assert(members.deep_view() =~= joined.push(view[o as int].task_id));
                            assert(visited.deep_view() =~= spoken.push(view[o as int].task_id));
                        }
                    }
                    o += 1;
                }
                if members.len() > 1 {
                    let ghost before = groups.deep_view();
                    let group = ParallelGroup {
                        group_id: numbered("group_", groups.len()),
                        tasks: members,
                        max_parallelism: self.calculate_max_parallelism(task),
                        shared_resources: Vec::new(),
                    };
                    proof {
                        assert(group.shared_resources.deep_view() =~= Seq::<Seq<char>>::empty());
                    }
                    let ghost added = group.deep_view();
                    groups.push(group);
                    assert(groups.deep_view() =~= before.push(added));
                }
            }
            t += 1;
        }
        groups
    }

    /// Whether the two tasks may run side by side.
    pub fn can_run_parallel(&self, task1: &TaskPlan, task2: &TaskPlan, graph: &DependencyGraph) -> (r:
        bool)
        ensures
            r == may_run_together(*graph, task1.deep_view(), task2.deep_view()),
    {
        if graph.has_path(task1.task_id.as_str(), task2.task_id.as_str()) || graph.has_path(
            task2.task_id.as_str(),
            task1.task_id.as_str(),
        ) {
            return false;
        }
        if !task1.can_run_parallel || !task2.can_run_parallel {
            return false;
        }
        if self.has_resource_conflict(task1, task2) {
            return false;
        }
        true
    }

    /// Whether the two tasks write the same file or manage the same
    /// service.
    pub fn has_resource_conflict(&self, task1: &TaskPlan, task2: &TaskPlan) -> (r: bool)
        ensures
            r == conflicts(task1.deep_view(), task2.deep_view()),
    {
        match (find_text(&task1.args, "dest"), find_text(&task2.args, "dest")) {
            (Some(dest1), Some(dest2)) => {
                if str_eq(dest1.as_str(), dest2.as_str()) {
                    return true;
                }
            },
            _ => {},
        }
        if str_eq(task1.module.as_str(), "service") && str_eq(task2.module.as_str(), "service") {
            match (find_text(&task1.args, "name"), find_text(&task2.args, "name")) {
                (Some(name1), Some(name2)) => {
                    if str_eq(name1.as_str(), name2.as_str()) {
                        return true;
                    }
                },
                _ => {},
            }
        }
        false
    }

    /// How many tasks of a group may run at once.
    pub fn calculate_max_parallelism(&self, _task: &TaskPlan) -> (r: u32)
        ensures
            r == 4,
    {
        4
    }
}

impl Default for DependencyGraphBuilder {
    fn default() -> (r: Self) {
        DependencyGraphBuilder
    }
}

} // verus!
