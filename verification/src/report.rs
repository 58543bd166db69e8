//! What is told of a plan besides the plan itself: its tasks, its hosts,
//! its binaries, and the graph of its tasks in the DOT language, each as
//! the lines of a text.

use vstd::prelude::*;
use crate::text::{decimal, decimal_string, join2, join3, push_text};
use crate::types::plan::{
    BinaryDeployment, BinaryDeploymentView, ExecutionBatch, ExecutionBatchView, ExecutionPlan,
    ExecutionPlanView, PlayPlanView, TaskPlan, TaskPlanView,
};

verus! {

/// The texts with a comma and a blank between each two.
pub open spec fn comma_list(items: Seq<Seq<char>>) -> Seq<char>
    decreases items.len(),
{
    if items.len() == 0 {
        Seq::empty()
    } else if items.len() == 1 {
        items[0]
    } else {
        comma_list(items.drop_last()) + ", "@ + items.last()
    }
}

/// The line for a task in a list of tasks.
pub open spec fn task_line(task: TaskPlanView) -> Seq<char> {
    "    - "@ + task.name + " ("@ + task.task_id + ")"@
}

/// The lines for the first `n` of the tasks.
pub open spec fn task_lines(tasks: Seq<TaskPlanView>, n: int) -> Seq<Seq<char>>
    decreases n,
{
    if n <= 0 {
        Seq::empty()
    } else {
        task_lines(tasks, n - 1).push(task_line(tasks[n - 1]))
    }
}

/// The lines for the tasks of the first `n` of the batches.
pub open spec fn batch_lines(batches: Seq<ExecutionBatchView>, n: int) -> Seq<Seq<char>>
    decreases n,
{
    if n <= 0 {
        Seq::empty()
    } else {
        batch_lines(batches, n - 1) + task_lines(
            batches[n - 1].tasks,
            batches[n - 1].tasks.len() as int,
        )
    }
}

/// The line that heads the tasks of play `index`; plays are counted from
/// one.
pub open spec fn play_heading(play: PlayPlanView, index: int) -> Seq<char> {
    "  Play "@ + decimal((index + 1) as nat) + ": "@ + play.name
}

/// The lines for the first `n` of the plays.
pub open spec fn play_lines(plays: Seq<PlayPlanView>, n: int) -> Seq<Seq<char>>
    decreases n,
{
    if n <= 0 {
        Seq::empty()
    } else {
        play_lines(plays, n - 1).push(play_heading(plays[n - 1], n - 1)) + batch_lines(
            plays[n - 1].batches,
            plays[n - 1].batches.len() as int,
        )
    }
}

/// The list of the tasks of a plan: a heading, and for every play a
/// heading and a line for every task of every batch.
pub open spec fn task_listing(plan: ExecutionPlanView) -> Seq<Seq<char>> {
    seq!["Planned tasks:"@] + play_lines(plan.plays, plan.plays.len() as int)
}

/// The lines for the first `n` of the hosts.
pub open spec fn host_lines(hosts: Seq<Seq<char>>, n: int) -> Seq<Seq<char>>
    decreases n,
{
    if n <= 0 {
        Seq::empty()
    } else {
        host_lines(hosts, n - 1).push("  - "@ + hosts[n - 1])
    }
}

/// The list of the hosts of a plan: a heading and a line for every host.
pub open spec fn host_listing(plan: ExecutionPlanView) -> Seq<Seq<char>> {
    seq!["Target hosts:"@] + host_lines(plan.hosts, plan.hosts.len() as int)
}

/// The four lines for a binary: its name and id, its hosts, the number of
/// its tasks, and its size.
pub open spec fn deployment_lines(deployment: BinaryDeploymentView) -> Seq<Seq<char>> {
    seq![
        "  - "@ + deployment.binary_name + " ("@ + deployment.deployment_id + ")"@,
        "    Hosts: "@ + comma_list(deployment.target_hosts),
        "    Tasks: "@ + decimal(deployment.tasks.len()),
        "    Estimated size: "@ + decimal(deployment.estimated_size as nat) + " bytes"@,
    ]
}

/// The lines for the first `n` of the binaries.
pub open spec fn deployments_lines(deployments: Seq<BinaryDeploymentView>, n: int) -> Seq<
    Seq<char>,
>
    decreases n,
{
    if n <= 0 {
        Seq::empty()
    } else {
        deployments_lines(deployments, n - 1) + deployment_lines(deployments[n - 1])
    }
}

/// The list of the binaries of a plan: a heading and four lines for every
/// binary.
pub open spec fn binary_listing(plan: ExecutionPlanView) -> Seq<Seq<char>> {
    seq!["Binary deployments:"@] + deployments_lines(
        plan.binary_deployments,
        plan.binary_deployments.len() as int,
    )
}

/// The line for the node of a task: its id, labelled with its name.
pub open spec fn node_line(task: TaskPlanView) -> Seq<char> {
    "    \""@ + task.task_id + "\" [label=\""@ + task.name + "\"];"@
}

/// The line for the edge from a dependency to the task that waits for it.
pub open spec fn edge_line(dependency: Seq<char>, task: TaskPlanView) -> Seq<char> {
    "    \""@ + dependency + "\" -> \""@ + task.task_id + "\";"@
}

/// The lines for the edges into a task from the first `n` of its
/// dependencies.
pub open spec fn edge_lines(task: TaskPlanView, n: int) -> Seq<Seq<char>>
    decreases n,
{
    if n <= 0 {
        Seq::empty()
    } else {
        edge_lines(task, n - 1).push(edge_line(task.dependencies[n - 1], task))
    }
}

/// The lines for the nodes and edges of the first `n` of the tasks.
pub open spec fn graph_task_lines(tasks: Seq<TaskPlanView>, n: int) -> Seq<Seq<char>>
    decreases n,
{
    if n <= 0 {
        Seq::empty()
    } else {
        graph_task_lines(tasks, n - 1).push(node_line(tasks[n - 1])) + edge_lines(
            tasks[n - 1],
            tasks[n - 1].dependencies.len() as int,
        )
    }
}

/// The lines for the nodes and edges of the first `n` of the batches.
pub open spec fn graph_batch_lines(batches: Seq<ExecutionBatchView>, n: int) -> Seq<Seq<char>>
    decreases n,
{
    if n <= 0 {
        Seq::empty()
    } else {
        graph_batch_lines(batches, n - 1) + graph_task_lines(
            batches[n - 1].tasks,
            batches[n - 1].tasks.len() as int,
        )
    }
}

/// The lines for the cluster of play `index`; clusters are counted from
/// zero.
pub open spec fn cluster_lines(play: PlayPlanView, index: int) -> Seq<Seq<char>> {
    seq![
        "  subgraph cluster_"@ + decimal(index as nat) + " {"@,
        "    label=\""@ + play.name + "\";"@,
    ] + graph_batch_lines(play.batches, play.batches.len() as int) + seq!["  }"@]
}

/// The lines for the clusters of the first `n` of the plays.
pub open spec fn clusters_lines(plays: Seq<PlayPlanView>, n: int) -> Seq<Seq<char>>
    decreases n,
{
    if n <= 0 {
        Seq::empty()
    } else {
        clusters_lines(plays, n - 1) + cluster_lines(plays[n - 1], n - 1)
    }
}

/// The graph of a plan in the DOT language: one directed graph with a
/// cluster for every play, a node for every task of every batch and an edge
/// for every dependency.
pub open spec fn dot_visualization(plan: ExecutionPlanView) -> Seq<Seq<char>> {
    seq!["digraph execution_plan {"@, "  rankdir=TB;"@, "  node [shape=box];"@] + clusters_lines(
        plan.plays,
        plan.plays.len() as int,
    ) + seq!["}"@]
}

/// The texts with a comma and a blank between each two.
pub fn join_with_commas(items: &Vec<String>) -> (r: String)
    ensures
        r@ == comma_list(items.deep_view()),
{
    let mut out = String::new();
    let mut i: usize = 0;
    let ghost all = items.deep_view();
    assert(all.take(0) =~= Seq::<Seq<char>>::empty());
    while i < items.len()
        invariant
            i <= items.len(),
            all == items.deep_view(),
            out@ == comma_list(all.take(i as int)),
        decreases items.len() - i,
    {
        proof {
            assert(all.take(i + 1).drop_last() =~= all.take(i as int));
            assert(all.take(i + 1).last() == all[i as int]);
            if i == 0 {
                assert(out@ =~= Seq::<char>::empty());
                assert(out@ + all[0] =~= all[0]);
            }
        }
        if i > 0 {
            out.append(", ");
        }
        out.append(items[i].as_str());
        i += 1;
    }
    assert(all.take(items.len() as int) =~= all);
    out
}

/// Appends the lines for the tasks of the batches.
fn push_batch_lines(lines: &mut Vec<String>, batches: &Vec<ExecutionBatch>)
    ensures
        final(lines).deep_view() == old(lines).deep_view() + batch_lines(
            batches.deep_view(),
            batches.len() as int,
        ),
{
    let ghost start = lines.deep_view();
    let ghost view = batches.deep_view();
    let mut b: usize = 0;
    assert(lines.deep_view() =~= start + batch_lines(view, 0));
    while b < batches.len()
        invariant
            b <= batches.len(),
            view == batches.deep_view(),
            lines.deep_view() == start + batch_lines(view, b as int),
        decreases batches.len() - b,
    {
        let tasks = &batches[b].tasks;
        let ghost before = lines.deep_view();
        let ghost inner = view[b as int].tasks;
        let mut t: usize = 0;
        assert(lines.deep_view() =~= before + task_lines(inner, 0));
        while t < tasks.len()
            invariant
                t <= tasks.len(),
                inner == tasks.deep_view(),
                lines.deep_view() == before + task_lines(inner, t as int),
            decreases tasks.len() - t,
        {
            let task = &tasks[t];
            let line = String::from_str("    - ").concat(task.name.as_str()).concat(" (").concat(
                task.task_id.as_str(),
            ).concat(")");
            push_text(lines, line);
            assert(lines.deep_view() =~= before + task_lines(inner, t + 1));
            t += 1;
        }
        assert(lines.deep_view() =~= start + batch_lines(view, b + 1));
        b += 1;
    }
}

/// The list of the tasks of a plan, line by line.
pub fn list_tasks(plan: &ExecutionPlan) -> (r: Vec<String>)
    ensures
        r.deep_view() == task_listing(plan.deep_view()),
{
    let ghost plays = plan.deep_view().plays;
    let mut lines: Vec<String> = Vec::new();
    lines.push(String::from_str("Planned tasks:"));
    let ghost head = lines.deep_view();
    let mut p: usize = 0;
    proof {
        assert(head =~= seq!["Planned tasks:"@]);
        assert(lines.deep_view() =~= head + play_lines(plays, 0));
    }
    while p < plan.plays.len()
        invariant
            p <= plan.plays.len(),
            plays == plan.deep_view().plays,
            head == seq!["Planned tasks:"@],
            lines.deep_view() == head + play_lines(plays, p as int),
        decreases plan.plays.len() - p,
    {
        let play = &plan.plays[p];
        let number = decimal_string(p as u128 + 1);
        let heading = String::from_str("  Play ").concat(number.as_str()).concat(": ").concat(
            play.name.as_str(),
        );
        push_text(&mut lines, heading);
        push_batch_lines(&mut lines, &play.batches);
        assert(lines.deep_view() =~= head + play_lines(plays, p + 1));
        p += 1;
    }
    lines
}

/// The list of the hosts of a plan, line by line.
pub fn list_hosts(plan: &ExecutionPlan) -> (r: Vec<String>)
    ensures
        r.deep_view() == host_listing(plan.deep_view()),
{
    let ghost hosts = plan.deep_view().hosts;
    let mut lines: Vec<String> = Vec::new();
    lines.push(String::from_str("Target hosts:"));
    let ghost head = lines.deep_view();
    let mut h: usize = 0;
    proof {
        assert(head =~= seq!["Target hosts:"@]);
        assert(lines.deep_view() =~= head + host_lines(hosts, 0));
    }
    while h < plan.hosts.len()
        invariant
            h <= plan.hosts.len(),
            hosts == plan.deep_view().hosts,
            head == seq!["Target hosts:"@],
            lines.deep_view() == head + host_lines(hosts, h as int),
        decreases plan.hosts.len() - h,
    {
        push_text(&mut lines, join2("  - ", plan.hosts[h].as_str()));
        assert(lines.deep_view() =~= head + host_lines(hosts, h + 1));
        h += 1;
    }
    lines
}

/// Appends the four lines for a binary.
fn push_deployment_lines(lines: &mut Vec<String>, deployment: &BinaryDeployment)
    ensures
        final(lines).deep_view() == old(lines).deep_view() + deployment_lines(
            deployment.deep_view(),
        ),
{
    let ghost start = lines.deep_view();
    let name = String::from_str("  - ").concat(deployment.binary_name.as_str()).concat(" (").concat(
        deployment.deployment_id.as_str(),
    ).concat(")");
    push_text(lines, name);
    let hosts = join_with_commas(&deployment.target_hosts);
    push_text(lines, join2("    Hosts: ", hosts.as_str()));
    let count = decimal_string(deployment.tasks.len() as u128);
    push_text(lines, join2("    Tasks: ", count.as_str()));
    let size = decimal_string(deployment.estimated_size as u128);
    push_text(lines, join3("    Estimated size: ", size.as_str(), " bytes"));
    assert(lines.deep_view() =~= start + deployment_lines(deployment.deep_view()));
}

/// The list of the binaries of a plan, line by line.
pub fn list_binary_deployments(plan: &ExecutionPlan) -> (r: Vec<String>)
    ensures
        r.deep_view() == binary_listing(plan.deep_view()),
{
    let ghost deployments = plan.deep_view().binary_deployments;
    let mut lines: Vec<String> = Vec::new();
    lines.push(String::from_str("Binary deployments:"));
    let ghost head = lines.deep_view();
    let mut d: usize = 0;
    proof {
        assert(head =~= seq!["Binary deployments:"@]);
        assert(lines.deep_view() =~= head + deployments_lines(deployments, 0));
    }
    while d < plan.binary_deployments.len()
        invariant
            d <= plan.binary_deployments.len(),
            deployments == plan.deep_view().binary_deployments,
            head == seq!["Binary deployments:"@],
            lines.deep_view() == head + deployments_lines(deployments, d as int),
        decreases plan.binary_deployments.len() - d,
    {
        push_deployment_lines(&mut lines, &plan.binary_deployments[d]);
        assert(lines.deep_view() =~= head + deployments_lines(deployments, d + 1));
        d += 1;
    }
    lines
}

/// Appends the lines for the node of a task and the edges into it.
fn push_graph_task_lines(lines: &mut Vec<String>, task: &TaskPlan)
    ensures
        final(lines).deep_view() == old(lines).deep_view().push(node_line(task.deep_view()))
            + edge_lines(task.deep_view(), task.dependencies.len() as int),
{
    let ghost view = task.deep_view();
    let node = String::from_str("    \"").concat(task.task_id.as_str()).concat(
        "\" [label=\"",
    ).concat(task.name.as_str()).concat("\"];");
    push_text(lines, node);
    let ghost start = lines.deep_view();
    let mut d: usize = 0;
    assert(lines.deep_view() =~= start + edge_lines(view, 0));
    while d < task.dependencies.len()
        invariant
            d <= task.dependencies.len(),
            view == task.deep_view(),
            lines.deep_view() == start + edge_lines(view, d as int),
        decreases task.dependencies.len() - d,
    {
        let edge = String::from_str("    \"").concat(task.dependencies[d].as_str()).concat(
            "\" -> \"",
        ).concat(task.task_id.as_str()).concat("\";");
        push_text(lines, edge);
        assert(lines.deep_view() =~= start + edge_lines(view, d + 1));
        d += 1;
    }
}

/// Appends the lines for the nodes and edges of the batches.
fn push_graph_batch_lines(lines: &mut Vec<String>, batches: &Vec<ExecutionBatch>)
    ensures
        final(lines).deep_view() == old(lines).deep_view() + graph_batch_lines(
            batches.deep_view(),
            batches.len() as int,
        ),
{
    let ghost start = lines.deep_view();
    let ghost view = batches.deep_view();
    let mut b: usize = 0;
    assert(lines.deep_view() =~= start + graph_batch_lines(view, 0));
    while b < batches.len()
        invariant
            b <= batches.len(),
            view == batches.deep_view(),
            lines.deep_view() == start + graph_batch_lines(view, b as int),
        decreases batches.len() - b,
    {
        let tasks = &batches[b].tasks;
        let ghost before = lines.deep_view();
        let ghost inner = view[b as int].tasks;
        let mut t: usize = 0;
        assert(lines.deep_view() =~= before + graph_task_lines(inner, 0));
        while t < tasks.len()
            invariant
                t <= tasks.len(),
                inner == tasks.deep_view(),
                lines.deep_view() == before + graph_task_lines(inner, t as int),
            decreases tasks.len() - t,
        {
            push_graph_task_lines(lines, &tasks[t]);
            assert(lines.deep_view() =~= before + graph_task_lines(inner, t + 1));
            t += 1;
        }
        assert(lines.deep_view() =~= start + graph_batch_lines(view, b + 1));
        b += 1;
    }
}

/// The graph of a plan in the DOT language, line by line.
pub fn generate_dot_visualization(plan: &ExecutionPlan) -> (r: Vec<String>)
    ensures
        r.deep_view() == dot_visualization(plan.deep_view()),
{
    let ghost plays = plan.deep_view().plays;
    let mut lines: Vec<String> = Vec::new();
    lines.push(String::from_str("digraph execution_plan {"));
    lines.push(String::from_str("  rankdir=TB;"));
    lines.push(String::from_str("  node [shape=box];"));
    let ghost head = lines.deep_view();
    let mut p: usize = 0;
    proof {
        assert(head =~= seq![
            "digraph execution_plan {"@,
            "  rankdir=TB;"@,
            "  node [shape=box];"@,
        ]);
        assert(lines.deep_view() =~= head + clusters_lines(plays, 0));
    }
    while p < plan.plays.len()
        invariant
            p <= plan.plays.len(),
            plays == plan.deep_view().plays,
            head == seq!["digraph execution_plan {"@, "  rankdir=TB;"@, "  node [shape=box];"@],
            lines.deep_view() == head + clusters_lines(plays, p as int),
        decreases plan.plays.len() - p,
    {
        let play = &plan.plays[p];
        let ghost before = lines.deep_view();
        let number = decimal_string(p as u128);
        push_text(&mut lines, join3("  subgraph cluster_", number.as_str(), " {"));
        push_text(&mut lines, join3("    label=\"", play.name.as_str(), "\";"));
        push_graph_batch_lines(&mut lines, &play.batches);
        push_text(&mut lines, String::from_str("  }"));
        assert(lines.deep_view() =~= before + cluster_lines(plays[p as int], p as int));
        assert(lines.deep_view() =~= head + clusters_lines(plays, p + 1));
        p += 1;
    }
    push_text(&mut lines, String::from_str("}"));
    assert(lines.deep_view() =~= dot_visualization(plan.deep_view()));
    lines
}

} // verus!
