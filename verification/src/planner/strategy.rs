//! Laying tasks out over batches, strategy by strategy.

use vstd::prelude::*;
use crate::text::{clone_strings, decimal, numbered};
use crate::types::plan::{
    clone_tasks, ExecutionBatch, ExecutionBatchView, ParallelGroupView, TaskPlan, TaskPlanView,
};
use crate::types::strategy::ExecutionStrategy;

verus! {

/// The hosts of a batch: the given list, or else those of the task itself.
pub open spec fn batch_hosts(hosts: Option<Seq<Seq<char>>>, task: TaskPlanView) -> Seq<Seq<char>> {
    match hosts {
        Some(h) => h,
        None => task.hosts,
    }
}

/// Batch `i` of a chain: it holds one task and waits for batch `i - 1`. The
/// first batch waits for `first_dependency`, if there is one.
pub open spec fn chain_batch(
    prefix: Seq<char>,
    first_dependency: Option<Seq<char>>,
    hosts: Option<Seq<Seq<char>>>,
    task: TaskPlanView,
    i: int,
) -> ExecutionBatchView {
    ExecutionBatchView {
        batch_id: prefix + decimal(i as nat),
        hosts: batch_hosts(hosts, task),
        tasks: seq![task],
        parallel_groups: Seq::empty(),
        dependencies: if i > 0 {
            seq![prefix + decimal((i - 1) as nat)]
        } else {
            match first_dependency {
                Some(d) => seq![d],
                None => Seq::empty(),
            }
        },
        estimated_duration: task.estimated_duration,
    }
}

/// One batch per task, in the order of the tasks, each waiting for the one
/// before it.
pub open spec fn chain_batches(
    prefix: Seq<char>,
    first_dependency: Option<Seq<char>>,
    hosts: Option<Seq<Seq<char>>>,
    tasks: Seq<TaskPlanView>,
) -> Seq<ExecutionBatchView> {
    Seq::new(tasks.len(), |i: int| chain_batch(prefix, first_dependency, hosts, tasks[i], i))
}

/// The tasks that may run in parallel, in their order.
pub open spec fn parallel_tasks(tasks: Seq<TaskPlanView>) -> Seq<TaskPlanView> {
    tasks.filter(|t: TaskPlanView| t.can_run_parallel)
}

/// The tasks that may not run in parallel, in their order.
pub open spec fn sequential_tasks(tasks: Seq<TaskPlanView>) -> Seq<TaskPlanView> {
    tasks.filter(|t: TaskPlanView| !t.can_run_parallel)
}

/// A batch without dependencies that holds `tasks` as they are.
pub open spec fn composite_batch(
    batch_id: Seq<char>,
    hosts: Seq<Seq<char>>,
    tasks: Seq<TaskPlanView>,
) -> ExecutionBatchView {
    ExecutionBatchView {
        batch_id,
        hosts,
        tasks,
        parallel_groups: Seq::empty(),
        dependencies: Seq::empty(),
        estimated_duration: None,
    }
}

/// The free layout: the parallel tasks in one batch, if there are any, then
/// the others as a chain that starts after it.
pub open spec fn free_batches(
    parallel_id: Seq<char>,
    sequential_prefix: Seq<char>,
    hosts: Option<Seq<Seq<char>>>,
    tasks: Seq<TaskPlanView>,
) -> Seq<ExecutionBatchView> {
    let parallel = parallel_tasks(tasks);
    let sequential = sequential_tasks(tasks);
    if parallel.len() > 0 {
        seq![composite_batch(parallel_id, batch_hosts(hosts, parallel[0]), parallel)]
            + chain_batches(sequential_prefix, Some(parallel_id), hosts, sequential)
    } else {
        chain_batches(sequential_prefix, None, hosts, sequential)
    }
}

/// The number of windows of `window` hosts that cover `host_count` hosts.
pub open spec fn window_count(host_count: nat, window: nat) -> nat
    recommends
        window > 0,
{
    ((host_count + window - 1) / window as int) as nat
}

/// Window `i` of the hosts: `window` hosts from position `i * window`, or
/// those that are left.
pub open spec fn host_window(hosts: Seq<Seq<char>>, window: nat, i: int) -> Seq<Seq<char>> {
    let start = i * window;
    let end = if start + window <= hosts.len() {
        start + window
    } else {
        hosts.len() as int
    };
    hosts.subrange(start, end)
}

/// The tasks, each on the given hosts.
pub open spec fn tasks_on_hosts(tasks: Seq<TaskPlanView>, hosts: Seq<Seq<char>>) -> Seq<
    TaskPlanView,
> {
    Seq::new(tasks.len(), |k: int| tasks[k].on_hosts(hosts))
}

/// Batch `i` of a rolling layout: every task on window `i` of the hosts,
/// after batch `i - 1`.
pub open spec fn rolling_batch(
    prefix: Seq<char>,
    tasks: Seq<TaskPlanView>,
    hosts: Seq<Seq<char>>,
    window: nat,
    i: int,
) -> ExecutionBatchView {
    ExecutionBatchView {
        batch_id: prefix + decimal(i as nat),
        hosts: host_window(hosts, window, i),
        tasks: tasks_on_hosts(tasks, host_window(hosts, window, i)),
        parallel_groups: Seq::empty(),
        dependencies: if i > 0 {
            seq![prefix + decimal((i - 1) as nat)]
        } else {
            Seq::empty()
        },
        estimated_duration: None,
    }
}

/// The rolling layout: one batch per window of hosts, in order. Without
/// tasks or without hosts there is no batch, whatever the window.
pub open spec fn rolling_batches(
    prefix: Seq<char>,
    tasks: Seq<TaskPlanView>,
    hosts: Seq<Seq<char>>,
    window: nat,
) -> Seq<ExecutionBatchView>
    recommends
        window > 0 || tasks.len() == 0 || hosts.len() == 0,
{
    if tasks.len() == 0 || hosts.len() == 0 {
        Seq::empty()
    } else {
        Seq::new(
            window_count(hosts.len(), window),
            |i: int| rolling_batch(prefix, tasks, hosts, window, i),
        )
    }
}

/// Batch `i` of a host-pinned layout: every task on host `i` alone.
pub open spec fn pinned_batch(
    prefix: Seq<char>,
    tasks: Seq<TaskPlanView>,
    hosts: Seq<Seq<char>>,
    i: int,
) -> ExecutionBatchView {
    composite_batch(prefix + decimal(i as nat), seq![hosts[i]], tasks_on_hosts(tasks, seq![hosts[i]]))
}

/// The host-pinned layout: one batch per host, none waiting for another.
pub open spec fn pinned_batches(
    prefix: Seq<char>,
    tasks: Seq<TaskPlanView>,
    hosts: Seq<Seq<char>>,
) -> Seq<ExecutionBatchView> {
    Seq::new(hosts.len(), |i: int| pinned_batch(prefix, tasks, hosts, i))
}

/// The layout that `StrategyPlanner::plan_strategy` gives.
pub open spec fn strategy_batches(
    strategy: ExecutionStrategy,
    tasks: Seq<TaskPlanView>,
    hosts: Seq<Seq<char>>,
) -> Seq<ExecutionBatchView> {
    match strategy {
        ExecutionStrategy::Linear => chain_batches("linear-batch-"@, None, Some(hosts), tasks),
        ExecutionStrategy::Free => free_batches(
            "free-parallel"@,
            "free-sequential-"@,
            Some(hosts),
            tasks,
        ),
        ExecutionStrategy::Rolling { batch_size } => rolling_batches(
            "rolling-"@,
            tasks,
            hosts,
            batch_size as nat,
        ),
        ExecutionStrategy::HostPinned => pinned_batches("host-"@, tasks, hosts),
        ExecutionStrategy::BinaryHybrid | ExecutionStrategy::BinaryOnly => seq![
            composite_batch("linear-batch-"@ + decimal(0), hosts, tasks),
        ],
    }
}

/// The tasks of `tasks` whose parallel flag is `flag`, in their order.
pub fn select_by_parallel_flag(tasks: &Vec<TaskPlan>, flag: bool) -> (r: Vec<TaskPlan>)
    ensures
        flag ==> r.deep_view() == parallel_tasks(tasks.deep_view()),
        !flag ==> r.deep_view() == sequential_tasks(tasks.deep_view()),
{
    let mut out: Vec<TaskPlan> = Vec::new();
    let mut i: usize = 0;
    let ghost pred = |t: TaskPlanView| t.can_run_parallel == flag;
    proof {
        reveal(Seq::filter);
        assert(tasks.deep_view().take(0) =~= Seq::<TaskPlanView>::empty());
        assert(out.deep_view() =~= Seq::<TaskPlanView>::empty());
    }
    while i < tasks.len()
        invariant
            i <= tasks.len(),
            pred == (|t: TaskPlanView| t.can_run_parallel == flag),
            out.deep_view() == tasks.deep_view().take(i as int).filter(pred),
        decreases tasks.len() - i,
    {
        proof {
            crate::text::lemma_filter_take_step(tasks.deep_view(), pred, i as int);
        }
        if tasks[i].can_run_parallel == flag {
            let ghost before = out.deep_view();
            out.push(tasks[i].clone());
            assert(out.deep_view() =~= before.push(tasks.deep_view()[i as int]));
        }
        i += 1;
    }
    proof {
        assert(tasks.deep_view().take(tasks.len() as int) =~= tasks.deep_view());
        if flag {
            assert(pred =~= (|t: TaskPlanView| t.can_run_parallel));
        } else {
            assert(pred =~= (|t: TaskPlanView| !t.can_run_parallel));
        }
    }
    out
}

/// Appends to `batches` one batch per task of `tasks`, each waiting for the
/// one before it, the first for `first_dependency`.
pub fn push_chain(
    batches: &mut Vec<ExecutionBatch>,
    prefix: &str,
    first_dependency: Option<&str>,
    hosts: Option<&Vec<String>>,
    tasks: &Vec<TaskPlan>,
)
    ensures
        final(batches).deep_view() == old(batches).deep_view() + chain_batches(
            prefix@,
            first_dependency.deep_view(),
            hosts.deep_view(),
            tasks.deep_view(),
        ),
{
    let ghost start = batches.deep_view();
    let ghost expected = chain_batches(
        prefix@,
        first_dependency.deep_view(),
        hosts.deep_view(),
        tasks.deep_view(),
    );
    let mut i: usize = 0;
    assert(batches.deep_view() =~= start + expected.take(0));
    while i < tasks.len()
        invariant
            i <= tasks.len(),
            expected == chain_batches(
                prefix@,
                first_dependency.deep_view(),
                hosts.deep_view(),
                tasks.deep_view(),
            ),
            batches.deep_view() == start + expected.take(i as int),
        decreases tasks.len() - i,
    {
        let task = &tasks[i];
        let batch_hosts = match hosts {
            Some(h) => clone_strings(h),
            None => clone_strings(&task.hosts),
        };
        let mut dependencies: Vec<String> = Vec::new();
        if i > 0 {
            dependencies.push(numbered(prefix, i - 1));
        } else {
            match first_dependency {
                Some(d) => {
                    dependencies.push(String::from_str(d));
                },
                None => {},
            }
        }
        let mut batch_tasks: Vec<TaskPlan> = Vec::new();
        batch_tasks.push(task.clone());
        let batch = ExecutionBatch {
            batch_id: numbered(prefix, i),
            hosts: batch_hosts,
            tasks: batch_tasks,
            parallel_groups: Vec::new(),
            dependencies,
            estimated_duration: task.estimated_duration,
        };
        proof {
            let want = expected[i as int];
            assert(batch.tasks.deep_view() =~= want.tasks);
            assert(batch.parallel_groups.deep_view() =~= want.parallel_groups);
            assert(batch.dependencies.deep_view() =~= want.dependencies);
            assert(batch.deep_view() == want);
        }
        let ghost before = batches.deep_view();
        batches.push(batch);
        proof {
            assert(batches.deep_view() =~= before.push(expected[i as int]));
            assert(expected.take(i + 1) =~= expected.take(i as int).push(expected[i as int]));
            assert(batches.deep_view() =~= start + expected.take(i + 1));
        }
        i += 1;
    }
    assert(expected.take(tasks.len() as int) =~= expected);
}

/// A copy of the elements of `list` from position `start` up to `end`.
pub fn clone_range(list: &Vec<String>, start: usize, end: usize) -> (r: Vec<String>)
    requires
        start <= end <= list.len(),
    ensures
        r.deep_view() == list.deep_view().subrange(start as int, end as int),
{
    let mut out: Vec<String> = Vec::new();
    let mut k: usize = start;
    assert(out.deep_view() =~= list.deep_view().subrange(start as int, start as int));
    while k < end
        invariant
            start <= k <= end <= list.len(),
            out.deep_view() == list.deep_view().subrange(start as int, k as int),
        decreases end - k,
    {
        let ghost before = out.deep_view();
        out.push(list[k].clone());
        assert(out.deep_view() =~= before.push(list.deep_view()[k as int]));
        assert(list.deep_view().subrange(start as int, k + 1) =~= before.push(
            list.deep_view()[k as int],
        ));
        k += 1;
    }
    out
}

/// Copies of the tasks, each on the given hosts.
pub fn clone_tasks_on_hosts(tasks: &Vec<TaskPlan>, hosts: &Vec<String>) -> (r: Vec<TaskPlan>)
    ensures
        r.deep_view() == tasks_on_hosts(tasks.deep_view(), hosts.deep_view()),
{
    let mut out: Vec<TaskPlan> = Vec::new();
    let mut k: usize = 0;
    let ghost expected = tasks_on_hosts(tasks.deep_view(), hosts.deep_view());
    assert(out.deep_view() =~= expected.take(0));
    while k < tasks.len()
        invariant
            k <= tasks.len(),
            expected == tasks_on_hosts(tasks.deep_view(), hosts.deep_view()),
            out.deep_view() == expected.take(k as int),
        decreases tasks.len() - k,
    {
        let ghost before = out.deep_view();
        out.push(tasks[k].clone_on_hosts(hosts));
        assert(out.deep_view() =~= before.push(expected[k as int]));
        assert(expected.take(k + 1) =~= before.push(expected[k as int]));
        k += 1;
    }
    assert(expected.take(tasks.len() as int) =~= expected);
    out
}

/// A window that starts before the end of the hosts is one of the
/// `window_count` windows, and no other is.
pub proof fn lemma_window_index(host_count: nat, window: nat, i: nat)
    requires
        window > 0,
    ensures
        i * window < host_count <==> i < window_count(host_count, window),
{
    let c = window_count(host_count, window);
    assert(c == (host_count + window - 1) / (window as int));
    assert(c * window <= host_count + window - 1 < (c + 1) * window) by (nonlinear_arith)
        requires
            window > 0,
            c == (host_count + window - 1) / (window as int),
    ;
    if i < c {
        assert(i * window <= (c - 1) * window) by (nonlinear_arith)
            requires
                i <= c - 1,
                window > 0,
        ;
        assert((c - 1) * window == c * window - window) by (nonlinear_arith);
    } else {
        assert(i * window >= c * window) by (nonlinear_arith)
            requires
                i >= c,
                window > 0,
        ;
        assert((c + 1) * window == c * window + window) by (nonlinear_arith);
    }
}

/// Appends to `batches` the rolling layout of `tasks` over `hosts`.
pub fn push_rolling(
    batches: &mut Vec<ExecutionBatch>,
    prefix: &str,
    tasks: &Vec<TaskPlan>,
    hosts: &Vec<String>,
    window: usize,
)
    requires
        window > 0 || tasks.len() == 0 || hosts.len() == 0,
    ensures
        final(batches).deep_view() == old(batches).deep_view() + rolling_batches(
            prefix@,
            tasks.deep_view(),
            hosts.deep_view(),
            window as nat,
        ),
{
    let ghost origin = batches.deep_view();
    let ghost expected = rolling_batches(
        prefix@,
        tasks.deep_view(),
        hosts.deep_view(),
        window as nat,
    );
    if tasks.len() == 0 || hosts.len() == 0 {
        assert(batches.deep_view() =~= origin + expected);
        return ;
    }
    let mut i: usize = 0;
    let mut start: usize = 0;
    assert(batches.deep_view() =~= origin + expected.take(0));
    proof {
        lemma_window_index(hosts.len() as nat, window as nat, 0);
    }
    while start < hosts.len()
        invariant
            window > 0,
            tasks.len() > 0,
            hosts.len() > 0,
            start == if i * window <= hosts.len() {
                i * window
            } else {
                hosts.len() as int
            },
            i <= start,
            i <= window_count(hosts.len() as nat, window as nat),
            expected == rolling_batches(
                prefix@,
                tasks.deep_view(),
                hosts.deep_view(),
                window as nat,
            ),
            batches.deep_view() == origin + expected.take(i as int),
        decreases hosts.len() - start,
    {
        proof {
            lemma_window_index(hosts.len() as nat, window as nat, i as nat);
            lemma_window_index(hosts.len() as nat, window as nat, (i + 1) as nat);
            assert((i + 1) * window == i * window + window) by (nonlinear_arith);
        }
        let end = if hosts.len() - start >= window {
            start + window
        } else {
            hosts.len()
        };
        let window_hosts = clone_range(hosts, start, end);
        let batch_tasks = clone_tasks_on_hosts(tasks, &window_hosts);
        let mut dependencies: Vec<String> = Vec::new();
        if i > 0 {
            dependencies.push(numbered(prefix, i - 1));
        }
        let batch = ExecutionBatch {
            batch_id: numbered(prefix, i),
            hosts: window_hosts,
            tasks: batch_tasks,
            parallel_groups: Vec::new(),
            dependencies,
            estimated_duration: None,
        };
        proof {
            let want = expected[i as int];
            assert(batch.hosts.deep_view() == want.hosts);
            assert(batch.parallel_groups.deep_view() =~= want.parallel_groups);
            assert(batch.dependencies.deep_view() =~= want.dependencies);
            assert(batch.deep_view() == want);
        }
        let ghost before = batches.deep_view();
        batches.push(batch);
        proof {
            assert(batches.deep_view() =~= before.push(expected[i as int]));
            assert(expected.take(i + 1) =~= expected.take(i as int).push(expected[i as int]));
            assert(batches.deep_view() =~= origin + expected.take(i + 1));
        }
        start = end;
        i += 1;
    }
    proof {
        lemma_window_index(hosts.len() as nat, window as nat, i as nat);
        assert(expected.take(i as int) =~= expected);
    }
}

/// Appends to `batches` the host-pinned layout of `tasks` over `hosts`.
pub fn push_pinned(
    batches: &mut Vec<ExecutionBatch>,
    prefix: &str,
    tasks: &Vec<TaskPlan>,
    hosts: &Vec<String>,
)
    ensures
        final(batches).deep_view() == old(batches).deep_view() + pinned_batches(
            prefix@,
            tasks.deep_view(),
            hosts.deep_view(),
        ),
{
    let ghost origin = batches.deep_view();
    let ghost expected = pinned_batches(prefix@, tasks.deep_view(), hosts.deep_view());
    let mut i: usize = 0;
    assert(batches.deep_view() =~= origin + expected.take(0));
    while i < hosts.len()
        invariant
            i <= hosts.len(),
            expected == pinned_batches(prefix@, tasks.deep_view(), hosts.deep_view()),
            batches.deep_view() == origin + expected.take(i as int),
        decreases hosts.len() - i,
    {
        let mut host: Vec<String> = Vec::new();
        host.push(hosts[i].clone());
        assert(host.deep_view() =~= seq![hosts.deep_view()[i as int]]);
        let batch = ExecutionBatch {
            batch_id: numbered(prefix, i),
            tasks: clone_tasks_on_hosts(tasks, &host),
            hosts: host,
            parallel_groups: Vec::new(),
            dependencies: Vec::new(),
            estimated_duration: None,
        };
        proof {
            let want = expected[i as int];
            assert(batch.parallel_groups.deep_view() =~= want.parallel_groups);
            assert(batch.dependencies.deep_view() =~= want.dependencies);
            assert(batch.deep_view() == want);
        }
        let ghost before = batches.deep_view();
        batches.push(batch);
        proof {
            assert(batches.deep_view() =~= before.push(expected[i as int]));
            assert(expected.take(i + 1) =~= expected.take(i as int).push(expected[i as int]));
            assert(batches.deep_view() =~= origin + expected.take(i + 1));
        }
        i += 1;
    }
    assert(expected.take(hosts.len() as int) =~= expected);
}

/// A batch without dependencies that holds copies of `tasks`.
pub fn make_composite_batch(batch_id: String, hosts: Vec<String>, tasks: Vec<TaskPlan>) -> (r:
    ExecutionBatch)
    ensures
        r.deep_view() == composite_batch(batch_id@, hosts.deep_view(), tasks.deep_view()),
{
    let batch = ExecutionBatch {
        batch_id,
        hosts,
        tasks,
        parallel_groups: Vec::new(),
        dependencies: Vec::new(),
        estimated_duration: None,
    };
    assert(batch.parallel_groups.deep_view() =~= Seq::<ParallelGroupView>::empty());
    assert(batch.dependencies.deep_view() =~= Seq::<Seq<char>>::empty());
    batch
}

/// The free layout of `tasks`: see `free_batches`.
pub fn build_free(
    parallel_id: &str,
    sequential_prefix: &str,
    hosts: Option<&Vec<String>>,
    tasks: &Vec<TaskPlan>,
) -> (r: Vec<ExecutionBatch>)
    ensures
        r.deep_view() == free_batches(
            parallel_id@,
            sequential_prefix@,
            hosts.deep_view(),
            tasks.deep_view(),
        ),
{
    let parallel = select_by_parallel_flag(tasks, true);
    let sequential = select_by_parallel_flag(tasks, false);
    let mut batches: Vec<ExecutionBatch> = Vec::new();
    assert(batches.deep_view() =~= Seq::<ExecutionBatchView>::empty());
    if parallel.len() > 0 {
        let batch_hosts = match hosts {
            Some(h) => clone_strings(h),
            None => clone_strings(&parallel[0].hosts),
        };
        let batch = make_composite_batch(String::from_str(parallel_id), batch_hosts, parallel);
        let ghost head = batch.deep_view();
        batches.push(batch);
        assert(batches.deep_view() =~= seq![head]);
        push_chain(&mut batches, sequential_prefix, Some(parallel_id), hosts, &sequential);
    } else {
        push_chain(&mut batches, sequential_prefix, None, hosts, &sequential);
        assert(batches.deep_view() =~= chain_batches(
            sequential_prefix@,
            None,
            hosts.deep_view(),
            sequential.deep_view(),
        ));
    }
    batches
}

pub struct StrategyPlanner;

impl StrategyPlanner {
    pub fn new() -> (r: Self) {
        StrategyPlanner
    }

    /// The batches of `tasks` over `hosts` under `strategy`.
    pub fn plan_strategy(
        &self,
        strategy: &ExecutionStrategy,
        tasks: &Vec<TaskPlan>,
        hosts: &Vec<String>,
    ) -> (r: Vec<ExecutionBatch>)
        requires
            strategy matches ExecutionStrategy::Rolling { batch_size } ==> batch_size > 0
                || tasks.len() == 0 || hosts.len() == 0,
        ensures
            r.deep_view() == strategy_batches(*strategy, tasks.deep_view(), hosts.deep_view()),
    {
        match strategy {
            ExecutionStrategy::Linear => self.plan_linear(tasks, hosts),
            ExecutionStrategy::Free => self.plan_free(tasks, hosts),
            ExecutionStrategy::Rolling { batch_size } => self.plan_rolling(
                tasks,
                hosts,
                *batch_size,
            ),
            ExecutionStrategy::HostPinned => self.plan_host_pinned(tasks, hosts),
            ExecutionStrategy::BinaryHybrid => self.plan_binary_hybrid(tasks, hosts),
            ExecutionStrategy::BinaryOnly => self.plan_binary_only(tasks, hosts),
        }
    }

    /// One batch per task, in order, each after the one before.
    pub fn plan_linear(&self, tasks: &Vec<TaskPlan>, hosts: &Vec<String>) -> (r: Vec<
        ExecutionBatch,
    >)
        ensures
            r.deep_view() == strategy_batches(
                ExecutionStrategy::Linear,
                tasks.deep_view(),
                hosts.deep_view(),
            ),
    {
        let mut batches: Vec<ExecutionBatch> = Vec::new();
        assert(batches.deep_view() =~= Seq::<ExecutionBatchView>::empty());
        push_chain(&mut batches, "linear-batch-", None, Some(hosts), tasks);
        assert(batches.deep_view() =~= chain_batches(
            "linear-batch-"@,
            None,
            Some(hosts.deep_view()),
            tasks.deep_view(),
        ));
        batches
    }

    /// The parallel-safe tasks in one batch, then the others one by one.
    pub fn plan_free(&self, tasks: &Vec<TaskPlan>, hosts: &Vec<String>) -> (r: Vec<
        ExecutionBatch,
    >)
        ensures
            r.deep_view() == strategy_batches(
                ExecutionStrategy::Free,
                tasks.deep_view(),
                hosts.deep_view(),
            ),
    {
        build_free("free-parallel", "free-sequential-", Some(hosts), tasks)
    }

    /// Every task on each window of `batch_size` hosts in turn.
    pub fn plan_rolling(&self, tasks: &Vec<TaskPlan>, hosts: &Vec<String>, batch_size: u32) -> (r:
        Vec<ExecutionBatch>)
        requires
            batch_size > 0 || tasks.len() == 0 || hosts.len() == 0,
        ensures
            r.deep_view() == strategy_batches(
                ExecutionStrategy::Rolling { batch_size },
                tasks.deep_view(),
                hosts.deep_view(),
            ),
    {
        let mut batches: Vec<ExecutionBatch> = Vec::new();
        assert(batches.deep_view() =~= Seq::<ExecutionBatchView>::empty());
        push_rolling(&mut batches, "rolling-", tasks, hosts, batch_size as usize);
        assert(batches.deep_view() =~= rolling_batches(
            "rolling-"@,
            tasks.deep_view(),
            hosts.deep_view(),
            batch_size as nat,
        ));
        batches
    }

    /// Every task on each host by itself.
    pub fn plan_host_pinned(&self, tasks: &Vec<TaskPlan>, hosts: &Vec<String>) -> (r: Vec<
        ExecutionBatch,
    >)
        ensures
            r.deep_view() == strategy_batches(
                ExecutionStrategy::HostPinned,
                tasks.deep_view(),
                hosts.deep_view(),
            ),
    {
        let mut batches: Vec<ExecutionBatch> = Vec::new();
        assert(batches.deep_view() =~= Seq::<ExecutionBatchView>::empty());
        push_pinned(&mut batches, "host-", tasks, hosts);
        assert(batches.deep_view() =~= pinned_batches(
            "host-"@,
            tasks.deep_view(),
            hosts.deep_view(),
        ));
        batches
    }

    /// All tasks in one batch; which of them a binary takes over is settled
    /// by the deployment planner.
    pub fn plan_binary_hybrid(&self, tasks: &Vec<TaskPlan>, hosts: &Vec<String>) -> (r: Vec<
        ExecutionBatch,
    >)
        ensures
            r.deep_view() == strategy_batches(
                ExecutionStrategy::BinaryHybrid,
                tasks.deep_view(),
                hosts.deep_view(),
            ),
    {
        let batch = make_composite_batch(
            numbered("linear-batch-", 0),
            clone_strings(hosts),
            clone_tasks(tasks),
        );
        let ghost head = batch.deep_view();
        let mut batches: Vec<ExecutionBatch> = Vec::new();
        batches.push(batch);
        assert(batches.deep_view() =~= seq![head]);
        batches
    }

    /// As `plan_binary_hybrid`.
    pub fn plan_binary_only(&self, tasks: &Vec<TaskPlan>, hosts: &Vec<String>) -> (r: Vec<
        ExecutionBatch,
    >)
        ensures
            r.deep_view() == strategy_batches(
                ExecutionStrategy::BinaryOnly,
                tasks.deep_view(),
                hosts.deep_view(),
            ),
    {
        self.plan_binary_hybrid(tasks, hosts)
    }
}

impl Default for StrategyPlanner {
    fn default() -> (r: Self) {
        StrategyPlanner
    }
}

} // verus!
