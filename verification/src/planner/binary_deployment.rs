//! Which groups of tasks get a binary, and what each binary carries.

use vstd::prelude::*;
use crate::json::{group_plan_json, write_group_plan};
use crate::numbers::{lemma_total_prefix, lemma_total_step, total};
use crate::planner::error::PlanError;
use crate::planner::suitability::{build_group, make_group, module_is_binary_compatible};
use crate::text::{
    clone_strings, decimal, decimal_string, intersects, is_substring, join2, join3,
    lemma_filter_take_step, lists_intersect, retain_in, retain_listed, str_contains, str_eq,
};
use crate::types::analysis::{
    BinaryDeploymentDecision, BinaryDeploymentDecisionView, TaskGroup, TaskGroupView,
};
use crate::types::parsed::{
    find_text, lookup_text, HostFacts, HostFactsView, ParsedInventory, ParsedInventoryView,
};
use crate::types::plan::{
    ArgValue, ArgValueView, BinaryDeployment, BinaryDeploymentView, BinaryEmbeddedData,
    BinaryEmbeddedDataView, BinaryExecutionMode, CompilationRequirements,
    CompilationRequirementsView, EmbeddedFile, EmbeddedFileView, KeyValue, KeyValueView, Ratio,
    RiskLevel, TaskPlan, TaskPlanView,
};

verus! {

/// A build that is kept for reuse. The compilation time is in nanoseconds.
#[derive(Debug)]
pub struct CachedBuild {
    pub checksum: String,
    pub compilation_time: u128,
    pub binary_size: u64,
}

impl Clone for CachedBuild {
    fn clone(&self) -> (r: Self)
        ensures
            r.checksum@ == self.checksum@,
            r.compilation_time == self.compilation_time,
            r.binary_size == self.binary_size,
    {
        CachedBuild {
            checksum: self.checksum.clone(),
            compilation_time: self.compilation_time,
            binary_size: self.binary_size,
        }
    }
}

/// The builds that are kept, each with the key under which it was stored.
#[derive(Debug)]
pub struct CompilationCache {
    pub cached_builds: Vec<(String, CachedBuild)>,
}

/// A target that binaries are built for, and how much longer than usual a
/// build for it takes.
#[derive(Debug)]
pub struct TargetProfile {
    pub arch: String,
    pub os: String,
    pub compilation_time_multiplier: Ratio,
}

impl Clone for TargetProfile {
    fn clone(&self) -> (r: Self)
        ensures
            r.arch@ == self.arch@,
            r.os@ == self.os@,
            r.compilation_time_multiplier == self.compilation_time_multiplier,
    {
        TargetProfile {
            arch: self.arch.clone(),
            os: self.os.clone(),
            compilation_time_multiplier: self.compilation_time_multiplier,
        }
    }
}

/// What a build costs before its first task.
pub const BASE_COMPILATION_NANOS: u128 = 30_000_000_000;

/// What each task adds to a build.
pub const PER_TASK_COMPILATION_NANOS: u128 = 100_000_000;

/// The size of a binary that carries nothing.
pub const BASE_BINARY_SIZE: u64 = 5 * 1024 * 1024;

/// Whether module is among those that the deployment planner puts into one
/// group.
pub open spec fn module_can_share_binary(module: Seq<char>) -> bool {
    &&& (module == "file"@ || module == "copy"@ || module == "template"@ || module == "shell"@
        || module == "package"@ || module == "service"@)
    &&& !(module == "pause"@ || module == "prompt"@)
}

/// Whether the two tasks can be in one binary.
pub open spec fn is_binary_compatible(a: TaskPlanView, b: TaskPlanView) -> bool {
    &&& module_can_share_binary(a.module)
    &&& module_can_share_binary(b.module)
    &&& a.risk_level != RiskLevel::Critical
    &&& b.risk_level != RiskLevel::Critical
}

/// Whether `task` joins the group that `seed` founds.
pub open spec fn shares_binary(seed: TaskPlanView, task: TaskPlanView) -> bool {
    is_binary_compatible(seed, task) && intersects(seed.hosts, task.hosts)
}

/// The groups of the tasks that are left, given the groups so far. The
/// first task that is left founds a group, which every later task joins
/// that is compatible with it and shares a host with it. The group is kept
/// where it has more than three network operations.
pub open spec fn groups_from(remaining: Seq<TaskPlanView>, groups: Seq<TaskGroupView>) -> Seq<
    TaskGroupView,
>
    decreases remaining.len(),
{
    if remaining.len() == 0 {
        groups
    } else {
        let seed = remaining[0];
        let rest = remaining.skip(1);
        let members = rest.filter(|t: TaskPlanView| shares_binary(seed, t));
        let left = rest.filter(|t: TaskPlanView| !shares_binary(seed, t));
        let group = make_group(groups.len(), seed, members);
        if group.network_operations > 3 {
            groups_from(left, groups.push(group))
        } else {
            groups_from(left, groups)
        }
    }
}

/// The groups that the deployment planner forms of the tasks of a play.
pub open spec fn task_groups(tasks: Seq<TaskPlanView>) -> Seq<TaskGroupView> {
    groups_from(tasks, Seq::empty())
}

/// The first module that no binary can stand in for, if there is one.
pub open spec fn first_incompatible_module(modules: Seq<Seq<char>>) -> Option<Seq<char>>
    decreases modules.len(),
{
    if modules.len() == 0 {
        None
    } else if !module_is_binary_compatible(modules[0]) {
        Some(modules[0])
    } else {
        first_incompatible_module(modules.skip(1))
    }
}

/// Whether a binary for a group with that many network operations saves
/// more than half of them: it needs two itself, one to upload it and one to
/// run it.
pub open spec fn benefit_is_sufficient(operations: nat) -> bool {
    2 * (operations - 2) > operations
}

/// Why a group is deployed.
pub open spec fn deploy_reason(operations: nat) -> Seq<char> {
    "Binary deployment reduces network operations from "@ + decimal(operations) + " to 2 ("@
        + decimal(((operations - 2) * 100 / operations as int) as nat) + "% improvement)"@
}

/// Whether a group gets a binary: it has at least `threshold` tasks, a
/// binary can stand in for each of its modules, and the binary saves more
/// than half of the network operations.
pub open spec fn deployment_decision(
    group: TaskGroupView,
    threshold: u32,
) -> BinaryDeploymentDecisionView {
    let operations = group.network_operations as nat;
    if group.tasks.len() < threshold {
        BinaryDeploymentDecisionView::Skip {
            reason: "Task group has "@ + decimal(group.tasks.len()) + " tasks, below threshold of "@
                + decimal(threshold as nat),
        }
    } else if first_incompatible_module(group.modules) is Some {
        BinaryDeploymentDecisionView::Skip {
            reason: "Module '"@ + first_incompatible_module(group.modules)->0
                + "' is not binary-compatible"@,
        }
    } else if benefit_is_sufficient(operations) {
        BinaryDeploymentDecisionView::Deploy {
            reason: deploy_reason(operations),
            estimated_benefit: Ratio {
                numerator: (operations - 2) as u128,
                denominator: operations as u128,
            },
        }
    } else {
        BinaryDeploymentDecisionView::Skip { reason: "Insufficient network overhead reduction"@ }
    }
}

/// Whether the task copies a file that the binary can carry: it is a `copy`
/// or a `template` with a source and a destination.
pub open spec fn embeds_file(task: TaskPlanView) -> bool {
    &&& (task.module == "copy"@ || task.module == "template"@)
    &&& lookup_text(task.args, "src"@) is Some
    &&& lookup_text(task.args, "dest"@) is Some
}

/// The file that the binary carries for a task. Checksum and size are
/// filled in when the binary is built.
pub open spec fn embedded_file(task: TaskPlanView) -> EmbeddedFileView {
    EmbeddedFileView {
        src_path: lookup_text(task.args, "src"@)->0,
        dest_path: lookup_text(task.args, "dest"@)->0,
        checksum: "placeholder-checksum"@,
        size: 1024,
    }
}

/// The files that the binary carries for the tasks, in their order.
pub open spec fn static_files(tasks: Seq<TaskPlanView>) -> Seq<EmbeddedFileView> {
    tasks.filter(|t: TaskPlanView| embeds_file(t)).map_values(|t: TaskPlanView| embedded_file(t))
}

/// Whether the argument is a string with a template in it.
pub open spec fn is_template(entry: KeyValueView) -> bool {
    entry.value matches ArgValueView::Text(s) && is_substring("{{"@, s) && is_substring("}}"@, s)
}

/// The place of the first entry under `key`, if there is one.
pub open spec fn key_index(entries: Seq<KeyValueView>, key: Seq<char>) -> Option<int>
    decreases entries.len(),
{
    if entries.len() == 0 {
        None
    } else if entries.last().key == key && key_index(entries.drop_last(), key) is None {
        Some(entries.len() - 1)
    } else {
        key_index(entries.drop_last(), key)
    }
}

/// The entries with `entry` in the place of the one under its key, or at
/// the end where there is none.
pub open spec fn upsert(entries: Seq<KeyValueView>, entry: KeyValueView) -> Seq<KeyValueView> {
    match key_index(entries, entry.key) {
        Some(i) => entries.update(i, entry),
        None => entries.push(entry),
    }
}

/// The variables with those of the first `n` arguments.
pub open spec fn with_variables(vars: Seq<KeyValueView>, args: Seq<KeyValueView>, n: int) -> Seq<
    KeyValueView,
>
    decreases n,
{
    if n <= 0 {
        vars
    } else {
        let before = with_variables(vars, args, n - 1);
        if is_template(args[n - 1]) {
            upsert(before, args[n - 1])
        } else {
            before
        }
    }
}

/// The variables of the first `t` tasks.
pub open spec fn variables_upto(tasks: Seq<TaskPlanView>, t: int) -> Seq<KeyValueView>
    decreases t,
{
    if t <= 0 {
        Seq::empty()
    } else {
        with_variables(variables_upto(tasks, t - 1), tasks[t - 1].args, tasks[t - 1].args.len() as int)
    }
}

/// The variables that the binary carries: every argument of the tasks that
/// is a string with a template in it, under its key. Of two such arguments
/// with one key the later one counts.
pub open spec fn template_variables(tasks: Seq<TaskPlanView>) -> Seq<KeyValueView> {
    variables_upto(tasks, tasks.len() as int)
}

/// Whether some task has the module.
pub open spec fn uses_module(tasks: Seq<TaskPlanView>, module: Seq<char>) -> bool {
    exists|i: int| 0 <= i < tasks.len() && (#[trigger] tasks[i]).module == module
}

/// The list with `item` at its end, if `wanted`.
pub open spec fn push_if(list: Seq<Seq<char>>, wanted: bool, item: Seq<char>) -> Seq<Seq<char>> {
    if wanted {
        list.push(item)
    } else {
        list
    }
}

/// The facts that the tasks need, each once, in alphabetical order:
/// packages need the package manager and the family of the system, services
/// the service manager, and files the user's ids.
pub open spec fn facts_required(tasks: Seq<TaskPlanView>) -> Seq<Seq<char>> {
    let packages = uses_module(tasks, "package"@);
    let services = uses_module(tasks, "service"@);
    let files = uses_module(tasks, "file"@) || uses_module(tasks, "copy"@) || uses_module(
        tasks,
        "template"@,
    );
    push_if(
        push_if(
            push_if(
                push_if(
                    push_if(Seq::empty(), packages, "ansible_os_family"@),
                    packages,
                    "ansible_pkg_mgr"@,
                ),
                services,
                "ansible_service_mgr"@,
            ),
            files,
            "ansible_user_gid"@,
        ),
        files,
        "ansible_user_uid"@,
    )
}

/// The number of tasks that copy a file.
pub open spec fn file_task_count(tasks: Seq<TaskPlanView>) -> nat {
    tasks.filter(|t: TaskPlanView| t.module == "copy"@ || t.module == "template"@).len()
}

/// The expected size of the binary for the tasks, in bytes: five mebibytes
/// and one kibibyte for every task and ten more for every task that copies
/// a file.
pub open spec fn estimated_size(tasks: Seq<TaskPlanView>) -> nat {
    BASE_BINARY_SIZE as nat + 1024 * tasks.len() + 10240 * file_task_count(tasks)
}

/// The architecture that binaries are built for, given what a host reports.
pub open spec fn target_arch(reported: Option<Seq<char>>) -> Seq<char> {
    match reported {
        Some(arch) => if arch == "aarch64"@ || arch == "arm64"@ {
            "aarch64"@
        } else if arch == "x86_64"@ {
            "x86_64"@
        } else if arch == "i386"@ || arch == "i686"@ {
            "i686"@
        } else {
            "x86_64"@
        },
        None => "x86_64"@,
    }
}

/// The operating system that binaries are built for, given what a host
/// reports.
pub open spec fn target_os(reported: Option<Seq<char>>) -> Seq<char> {
    match reported {
        Some(system) => if system == "Darwin"@ {
            "macos"@
        } else if system == "Linux"@ {
            "linux"@
        } else if system == "Windows"@ {
            "windows"@
        } else {
            "linux"@
        },
        None => "linux"@,
    }
}

/// The facts of a host: those of the first entry for it, if there is one.
pub open spec fn facts_of(host_facts: Seq<HostFactsView>, host: Seq<char>) -> Option<
    Seq<KeyValueView>,
>
    decreases host_facts.len(),
{
    if host_facts.len() == 0 {
        None
    } else if host_facts[0].host == host {
        Some(host_facts[0].facts)
    } else {
        facts_of(host_facts.skip(1), host)
    }
}

/// The target of a binary for the hosts: what the first host with facts
/// reports, or an x86_64 Linux where none has facts.
pub open spec fn target_from_facts(
    target_hosts: Seq<Seq<char>>,
    host_facts: Seq<HostFactsView>,
) -> (Seq<char>, Seq<char>)
    decreases target_hosts.len(),
{
    if target_hosts.len() == 0 {
        ("x86_64"@, "linux"@)
    } else {
        match facts_of(host_facts, target_hosts[0]) {
            Some(facts) => (
                target_arch(lookup_text(facts, "ansible_architecture"@)),
                target_os(lookup_text(facts, "ansible_system"@)),
            ),
            None => target_from_facts(target_hosts.skip(1), host_facts),
        }
    }
}

/// What it takes to build a binary for the hosts on a machine of the given
/// architecture and system.
pub open spec fn compilation_requirements(
    target_hosts: Seq<Seq<char>>,
    inventory: Option<ParsedInventoryView>,
    host_arch: Seq<char>,
    host_os: Seq<char>,
) -> CompilationRequirementsView {
    let target = match inventory {
        Some(inv) => target_from_facts(target_hosts, inv.host_facts),
        None => ("x86_64"@, "linux"@),
    };
    CompilationRequirementsView {
        target_arch: target.0,
        target_os: target.1,
        rust_version: "1.70.0"@,
        cross_compilation: target.0 != host_arch || target.1 != host_os,
        static_linking: true,
    }
}

/// What the binary for a group carries: the plan of the group as JSON, the
/// files that its tasks copy, the variables that its templates read and the
/// facts that its tasks ask for.
pub open spec fn embedded_data(group: TaskGroupView) -> BinaryEmbeddedDataView {
    BinaryEmbeddedDataView {
        execution_plan: group_plan_json(group),
        static_files: static_files(group.tasks),
        variables: template_variables(group.tasks),
        facts_required: facts_required(group.tasks),
    }
}

/// The binary for a group on those of `hosts` that the group runs on.
pub open spec fn binary_deployment(
    group: TaskGroupView,
    hosts: Seq<Seq<char>>,
    inventory: Option<ParsedInventoryView>,
    host_arch: Seq<char>,
    host_os: Seq<char>,
) -> BinaryDeploymentView {
    let target_hosts = retain_in(hosts, group.hosts);
    BinaryDeploymentView {
        deployment_id: group.id,
        target_hosts,
        binary_name: "rustle-runner-"@ + group.id,
        tasks: group.tasks.map_values(|t: TaskPlanView| t.task_id),
        modules: group.modules,
        embedded_data: embedded_data(group),
        execution_mode: BinaryExecutionMode::Controller,
        estimated_size: estimated_size(group.tasks) as u64,
        compilation_requirements: compilation_requirements(
            target_hosts,
            inventory,
            host_arch,
            host_os,
        ),
    }
}

/// The place of a binary among binaries in descending order of size: after
/// all that are at least as large.
pub open spec fn place_by_size(sorted: Seq<BinaryDeploymentView>, size: u64) -> int
    decreases sorted.len(),
{
    if sorted.len() == 0 {
        0
    } else if sorted[0].estimated_size < size {
        0
    } else {
        1 + place_by_size(sorted.skip(1), size)
    }
}

/// The first `n` binaries in descending order of size, those of one size in
/// the order in which they came.
pub open spec fn sorted_by_size(deployments: Seq<BinaryDeploymentView>, n: int) -> Seq<
    BinaryDeploymentView,
>
    decreases n,
{
    if n <= 0 {
        Seq::empty()
    } else {
        let before = sorted_by_size(deployments, n - 1);
        before.insert(place_by_size(before, deployments[n - 1].estimated_size), deployments[n - 1])
    }
}

/// Whether one of the binaries has the target hosts.
pub open spec fn has_target_hosts(deployments: Seq<BinaryDeploymentView>, hosts: Seq<Seq<char>>) -> bool {
    exists|k: int| 0 <= k < deployments.len() && (#[trigger] deployments[k]).target_hosts == hosts
}

/// The first `n` binaries without those that have the target hosts of a
/// binary before them: of the binaries with one list of target hosts the
/// first stays.
pub open spec fn without_repeated_hosts(deployments: Seq<BinaryDeploymentView>, n: int) -> Seq<
    BinaryDeploymentView,
>
    decreases n,
{
    if n <= 0 {
        Seq::empty()
    } else {
        let before = without_repeated_hosts(deployments, n - 1);
        if has_target_hosts(before, deployments[n - 1].target_hosts) {
            before
        } else {
            before.push(deployments[n - 1])
        }
    }
}

/// The binaries in descending order of size, one for each list of target
/// hosts: of the binaries with the same target hosts the largest stays, and
/// of those of one size the one that came first.
pub open spec fn optimized_deployments(deployments: Seq<BinaryDeploymentView>) -> Seq<
    BinaryDeploymentView,
> {
    let sorted = sorted_by_size(deployments, deployments.len() as int);
    without_repeated_hosts(sorted, sorted.len() as int)
}

/// Whether a group gets a binary under the threshold.
pub open spec fn is_deployed(group: TaskGroupView, threshold: u32) -> bool {
    group.tasks.len() >= threshold && deployment_decision(group, threshold) is Deploy
}

/// The binaries for the first `n` groups: one for each group that gets a
/// binary.
pub open spec fn deployments_upto(
    groups: Seq<TaskGroupView>,
    n: int,
    hosts: Seq<Seq<char>>,
    threshold: u32,
    inventory: Option<ParsedInventoryView>,
    host_arch: Seq<char>,
    host_os: Seq<char>,
) -> Seq<BinaryDeploymentView>
    decreases n,
{
    if n <= 0 {
        Seq::empty()
    } else {
        let before = deployments_upto(groups, n - 1, hosts, threshold, inventory, host_arch, host_os);
        if is_deployed(groups[n - 1], threshold) {
            before.push(binary_deployment(groups[n - 1], hosts, inventory, host_arch, host_os))
        } else {
            before
        }
    }
}

/// The binaries that are planned for the tasks of a play.
pub open spec fn planned_deployments(
    tasks: Seq<TaskPlanView>,
    hosts: Seq<Seq<char>>,
    threshold: u32,
    inventory: Option<ParsedInventoryView>,
    host_arch: Seq<char>,
    host_os: Seq<char>,
) -> Seq<BinaryDeploymentView> {
    let groups = task_groups(tasks);
    optimized_deployments(
        deployments_upto(groups, groups.len() as int, hosts, threshold, inventory, host_arch, host_os),
    )
}

/// The numbers of tasks of the binaries, in their order.
pub open spec fn deployment_sizes(deployments: Seq<BinaryDeploymentView>) -> Seq<nat> {
    deployments.map_values(|d: BinaryDeploymentView| d.tasks.len())
}

/// The number of tasks of the binaries.
pub open spec fn deployed_task_count(deployments: Seq<BinaryDeploymentView>) -> nat {
    total(deployment_sizes(deployments))
}

/// The expected time to build the binaries, in nanoseconds.
pub open spec fn compilation_time(deployments: Seq<BinaryDeploymentView>) -> nat {
    BASE_COMPILATION_NANOS as nat + PER_TASK_COMPILATION_NANOS as nat * deployed_task_count(
        deployments,
    )
}

/// A place that `key_index` finds in a part of the entries is the place
/// that it finds in all of them.
pub proof fn lemma_key_index_extends(entries: Seq<KeyValueView>, key: Seq<char>, n: int)
    requires
        0 <= n <= entries.len(),
        key_index(entries.take(n), key) is Some,
    ensures
        key_index(entries, key) == key_index(entries.take(n), key),
    decreases entries.len() - n,
{
    if n < entries.len() {
        assert(entries.take(n + 1).drop_last() =~= entries.take(n));
        lemma_key_index_extends(entries, key, n + 1);
    } else {
        assert(entries.take(n) =~= entries);
    }
}

/// The place of the first entry under `key`.
pub fn find_key(entries: &Vec<KeyValue>, key: &str) -> (r: Option<usize>)
    ensures
        match r {
            Some(i) => key_index(entries.deep_view(), key@) == Some(i as int) && i < entries.len(),
            None => key_index(entries.deep_view(), key@) is None,
        },
{
    let ghost all = entries.deep_view();
    let mut i: usize = 0;
    assert(all.take(0) =~= Seq::<KeyValueView>::empty());
    while i < entries.len()
        invariant
            i <= entries.len(),
            all == entries.deep_view(),
            key_index(all.take(i as int), key@) is None,
        decreases entries.len() - i,
    {
        assert(all.take(i + 1).drop_last() =~= all.take(i as int));
        assert(all.take(i + 1).last() == all[i as int]);
        if str_eq(entries[i].key.as_str(), key) {
            proof {
                lemma_key_index_extends(all, key@, i + 1);
            }
            return Some(i);
        }
        i += 1;
    }
    assert(all.take(entries.len() as int) =~= all);
    None
}

/// Puts `entry` in the place of the entry under its key, or at the end
/// where there is none.
pub fn put_entry(entries: &mut Vec<KeyValue>, entry: KeyValue)
    ensures
        final(entries).deep_view() == upsert(old(entries).deep_view(), entry.deep_view()),
{
    let ghost before = entries.deep_view();
    match find_key(entries, entry.key.as_str()) {
        Some(i) => {
            entries.set(i, entry);
            assert(entries.deep_view() =~= before.update(i as int, entry.deep_view()));
        },
        None => {
            entries.push(entry);
            assert(entries.deep_view() =~= before.push(entry.deep_view()));
        },
    }
}

/// The facts of a host.
pub fn find_host_facts<'a>(host_facts: &'a Vec<HostFacts>, host: &str) -> (r: Option<
    &'a Vec<KeyValue>,
>)
    ensures
        r.deep_view() == facts_of(host_facts.deep_view(), host@),
{
    let ghost all = host_facts.deep_view();
    let mut i: usize = 0;
    assert(all.skip(0) =~= all);
    while i < host_facts.len()
        invariant
            i <= host_facts.len(),
            all == host_facts.deep_view(),
            facts_of(all, host@) == facts_of(all.skip(i as int), host@),
        decreases host_facts.len() - i,
    {
        assert(all.skip(i as int)[0] == all[i as int]);
        assert(all.skip(i as int).skip(1) =~= all.skip(i + 1));
        if str_eq(host_facts[i].host.as_str(), host) {
            return Some(&host_facts[i].facts);
        }
        i += 1;
    }
    None
}

pub struct BinaryDeploymentPlanner {
    pub compilation_cache: CompilationCache,
    /// The known targets, each with its name.
    pub target_profiles: Vec<(String, TargetProfile)>,
    /// The architecture of the machine that builds the binaries.
    pub host_arch: String,
    /// The operating system of the machine that builds the binaries.
    pub host_os: String,
}

impl BinaryDeploymentPlanner {
    /// A planner that builds on an x86_64 Linux and knows the common
    /// targets.
    pub fn new() -> (r: Self)
        ensures
            r.host_arch@ == "x86_64"@,
            r.host_os@ == "linux"@,
    {
        let mut target_profiles: Vec<(String, TargetProfile)> = Vec::new();
        target_profiles.push(
            (
                String::from_str("x86_64-linux"),
                TargetProfile {
                    arch: String::from_str("x86_64"),
                    os: String::from_str("linux"),
                    compilation_time_multiplier: Ratio { numerator: 10, denominator: 10 },
                },
            ),
        );
        target_profiles.push(
            (
                String::from_str("aarch64-linux"),
                TargetProfile {
                    arch: String::from_str("aarch64"),
                    os: String::from_str("linux"),
                    compilation_time_multiplier: Ratio { numerator: 12, denominator: 10 },
                },
            ),
        );
        BinaryDeploymentPlanner {
            compilation_cache: CompilationCache { cached_builds: Vec::new() },
            target_profiles,
            host_arch: String::from_str("x86_64"),
            host_os: String::from_str("linux"),
        }
    }

    /// The planner on a machine of the given architecture and system.
    pub fn with_host_platform(self, arch: &str, os: &str) -> (r: Self)
        ensures
            r.host_arch@ == arch@,
            r.host_os@ == os@,
            r.compilation_cache == self.compilation_cache,
            r.target_profiles == self.target_profiles,
    {
        BinaryDeploymentPlanner {
            compilation_cache: self.compilation_cache,
            target_profiles: self.target_profiles,
            host_arch: String::from_str(arch),
            host_os: String::from_str(os),
        }
    }

    /// The network operations that the task costs without a binary.
    pub fn count_network_operations(&self, task: &TaskPlan) -> (r: u32)
        ensures
            r == crate::planner::suitability::network_operations(task.deep_view().module),
    {
        crate::planner::suitability::count_module_operations(task.module.as_str())
    }

    /// Whether the module is among those that are put into one group.
    fn module_shares_binary(&self, module: &str) -> (r: bool)
        ensures
            r == module_can_share_binary(module@),
    {
        (str_eq(module, "file") || str_eq(module, "copy") || str_eq(module, "template") || str_eq(
            module,
            "shell",
        ) || str_eq(module, "package") || str_eq(module, "service")) && !(str_eq(module, "pause")
            || str_eq(module, "prompt"))
    }

    /// Whether the two tasks can be in one binary.
    pub fn is_binary_compatible(&self, task1: &TaskPlan, task2: &TaskPlan) -> (r: bool)
        ensures
            r == is_binary_compatible(task1.deep_view(), task2.deep_view()),
    {
        self.module_shares_binary(task1.module.as_str()) && self.module_shares_binary(
            task2.module.as_str(),
        ) && task1.risk_level != RiskLevel::Critical && task2.risk_level != RiskLevel::Critical
    }

    /// Whether the two lists have a host in common.
    pub fn has_host_overlap(&self, hosts1: &Vec<String>, hosts2: &Vec<String>) -> (r: bool)
        ensures
            r == intersects(hosts1.deep_view(), hosts2.deep_view()),
    {
        lists_intersect(hosts1, hosts2)
    }

    /// Whether a binary can stand in for the module.
    pub fn is_module_binary_compatible(&self, module: &str) -> (r: bool)
        ensures
            r == module_is_binary_compatible(module@),
    {
        str_eq(module, "file") || str_eq(module, "copy") || str_eq(module, "template") || str_eq(
            module,
            "shell",
        ) || str_eq(module, "command") || str_eq(module, "package") || str_eq(module, "service")
            || str_eq(module, "user") || str_eq(module, "group") || str_eq(module, "cron")
    }

    /// The tasks after the first of `remaining` that join the group of
    /// `seed`, and those that do not, each in their order.
    fn split_by_seed<'a>(&self, seed: &TaskPlan, remaining: &Vec<&'a TaskPlan>) -> (r: (
        Vec<&'a TaskPlan>,
        Vec<&'a TaskPlan>,
    ))
        requires
            remaining.len() > 0,
        ensures
            r.0.deep_view() == remaining.deep_view().skip(1).filter(
                |t: TaskPlanView| shares_binary(seed.deep_view(), t),
            ),
            r.1.deep_view() == remaining.deep_view().skip(1).filter(
                |t: TaskPlanView| !shares_binary(seed.deep_view(), t),
            ),
            r.0.len() + r.1.len() == remaining.len() - 1,
    {
        let ghost rest = remaining.deep_view().skip(1);
        let ghost joining = |t: TaskPlanView| shares_binary(seed.deep_view(), t);
        let ghost staying = |t: TaskPlanView| !shares_binary(seed.deep_view(), t);
        let mut members: Vec<&'a TaskPlan> = Vec::new();
        let mut left: Vec<&'a TaskPlan> = Vec::new();
        let mut i: usize = 1;
        proof {
            reveal(Seq::filter);
            assert(rest.take(0) =~= Seq::<TaskPlanView>::empty());
            assert(members.deep_view() =~= Seq::<TaskPlanView>::empty());
            assert(left.deep_view() =~= Seq::<TaskPlanView>::empty());
        }
        while i < remaining.len()
            invariant
                1 <= i <= remaining.len(),
                rest == remaining.deep_view().skip(1),
                joining == (|t: TaskPlanView| shares_binary(seed.deep_view(), t)),
                staying == (|t: TaskPlanView| !shares_binary(seed.deep_view(), t)),
                members.deep_view() == rest.take(i - 1).filter(joining),
                left.deep_view() == rest.take(i - 1).filter(staying),
                members.len() + left.len() == i - 1,
            decreases remaining.len() - i,
        {
            let task = remaining[i];
            proof {
                lemma_filter_take_step(rest, joining, i - 1);
                lemma_filter_take_step(rest, staying, i - 1);
                assert(rest[i - 1] == task.deep_view());
            }
            if self.is_binary_compatible(seed, task) && self.has_host_overlap(
                &seed.hosts,
                &task.hosts,
            ) {
                let ghost before = members.deep_view();
                members.push(task);
                assert(members.deep_view() =~= before.push(task.deep_view()));
            } else {
                let ghost before = left.deep_view();
                left.push(task);
                assert(left.deep_view() =~= before.push(task.deep_view()));
            }
            i += 1;
        }
        assert(rest.take(remaining.len() - 1) =~= rest);
        (members, left)
    }

    /// The groups of the tasks of a play that a binary could run: see
    /// `task_groups`. Which tasks end up together depends on their order.
    pub fn analyze_task_groups(&self, tasks: &Vec<TaskPlan>) -> (r: Result<
        Vec<TaskGroup>,
        PlanError,
    >)
        requires
            2 * tasks.len() <= u32::MAX,
        ensures
            r matches Ok(groups) && groups.deep_view() == task_groups(tasks.deep_view()),
    {
        let mut remaining: Vec<&TaskPlan> = Vec::new();
        let mut k: usize = 0;
        assert(remaining.deep_view() =~= tasks.deep_view().take(0));
        while k < tasks.len()
            invariant
                k <= tasks.len(),
                remaining.deep_view() == tasks.deep_view().take(k as int),
            decreases tasks.len() - k,
        {
            let ghost before = remaining.deep_view();
            remaining.push(&tasks[k]);
            assert(remaining.deep_view() =~= before.push(tasks.deep_view()[k as int]));
            assert(tasks.deep_view().take(k + 1) =~= before.push(tasks.deep_view()[k as int]));
            k += 1;
        }
        assert(tasks.deep_view().take(tasks.len() as int) =~= tasks.deep_view());
        let mut groups: Vec<TaskGroup> = Vec::new();
        assert(groups.deep_view() =~= Seq::<TaskGroupView>::empty());
        while remaining.len() > 0
            invariant
                remaining.len() <= tasks.len(),
                2 * tasks.len() <= u32::MAX,
                groups_from(remaining.deep_view(), groups.deep_view()) == task_groups(
                    tasks.deep_view(),
                ),
            decreases remaining.len(),
        {
            let seed = remaining[0];
            let (members, left) = self.split_by_seed(seed, &remaining);
            let group = build_group(groups.len(), seed, &members);
            if group.network_operations > 3 {
                let ghost before = groups.deep_view();
                let ghost added = group.deep_view();
                groups.push(group);
                assert(groups.deep_view() =~= before.push(added));
            }
            remaining = left;
        }
        Ok(groups)
    }

    /// The first module of the list that no binary can stand in for.
    fn find_incompatible_module<'a>(&self, modules: &'a Vec<String>) -> (r: Option<&'a String>)
        ensures
            r.deep_view() == first_incompatible_module(modules.deep_view()),
    {
        let ghost all = modules.deep_view();
        let mut i: usize = 0;
        assert(all.skip(0) =~= all);
        while i < modules.len()
            invariant
                i <= modules.len(),
                all == modules.deep_view(),
                first_incompatible_module(all) == first_incompatible_module(all.skip(i as int)),
            decreases modules.len() - i,
        {
            assert(all.skip(i as int)[0] == all[i as int]);
            assert(all.skip(i as int).skip(1) =~= all.skip(i + 1));
            if !self.is_module_binary_compatible(modules[i].as_str()) {
                return Some(&modules[i]);
            }
            i += 1;
        }
        None
    }

    /// Whether the group gets a binary, and why: see `deployment_decision`.
    pub fn should_use_binary(&self, task_group: &TaskGroup, threshold: u32) -> (r:
        BinaryDeploymentDecision)
        ensures
            r.deep_view() == deployment_decision(task_group.deep_view(), threshold),
    {
        if task_group.tasks.len() < threshold as usize {
            let count = decimal_string(task_group.tasks.len() as u128);
            let limit = decimal_string(threshold as u128);
            let reason = String::from_str("Task group has ").concat(count.as_str()).concat(
                " tasks, below threshold of ",
            ).concat(limit.as_str());
            return BinaryDeploymentDecision::Skip { reason };
        }
        match self.find_incompatible_module(&task_group.modules) {
            Some(module) => {
                return BinaryDeploymentDecision::Skip {
                    reason: join3("Module '", module.as_str(), "' is not binary-compatible"),
                };
            },
            None => {},
        }
        let operations = task_group.network_operations;
        if operations > 4 {
            let from = decimal_string(operations as u128);
            let percent = decimal_string((operations as u128 - 2) * 100 / (operations as u128));
            let reason = String::from_str(
                "Binary deployment reduces network operations from ",
            ).concat(from.as_str()).concat(" to 2 (").concat(percent.as_str()).concat(
                "% improvement)",
            );
            BinaryDeploymentDecision::Deploy {
                reason,
                estimated_benefit: Ratio {
                    numerator: (operations - 2) as u128,
                    denominator: operations as u128,
                },
            }
        } else {
            BinaryDeploymentDecision::Skip {
                reason: String::from_str("Insufficient network overhead reduction"),
            }
        }
    }

    /// The files that the binary carries for the tasks.
    pub fn extract_static_files(&self, tasks: &Vec<TaskPlan>) -> (r: Result<
        Vec<EmbeddedFile>,
        PlanError,
    >)
        ensures
            r matches Ok(files) && files.deep_view() == static_files(tasks.deep_view()),
    {
        let ghost all = tasks.deep_view();
        let ghost pred = |t: TaskPlanView| embeds_file(t);
        let ghost to_file = |t: TaskPlanView| embedded_file(t);
        let mut files: Vec<EmbeddedFile> = Vec::new();
        let mut i: usize = 0;
        proof {
            reveal(Seq::filter);
            assert(all.take(0) =~= Seq::<TaskPlanView>::empty());
            assert(files.deep_view() =~= all.take(0).filter(pred).map_values(to_file));
        }
        while i < tasks.len()
            invariant
                i <= tasks.len(),
                all == tasks.deep_view(),
                pred == (|t: TaskPlanView| embeds_file(t)),
                to_file == (|t: TaskPlanView| embedded_file(t)),
                files.deep_view() == all.take(i as int).filter(pred).map_values(to_file),
            decreases tasks.len() - i,
        {
            let task = &tasks[i];
            proof {
                lemma_filter_take_step(all, pred, i as int);
            }
            if str_eq(task.module.as_str(), "copy") || str_eq(task.module.as_str(), "template") {
                match (find_text(&task.args, "src"), find_text(&task.args, "dest")) {
                    (Some(src), Some(dest)) => {
                        let ghost before = files.deep_view();
                        files.push(
                            EmbeddedFile {
                                src_path: src.clone(),
                                dest_path: dest.clone(),
                                checksum: String::from_str("placeholder-checksum"),
                                size: 1024,
                            },
                        );
                        assert(files.deep_view() =~= before.push(embedded_file(all[i as int])));
                        assert(all.take(i as int).filter(pred).push(all[i as int]).map_values(
                            to_file,
                        ) =~= before.push(embedded_file(all[i as int])));
                    },
                    _ => {},
                }
            }
            i += 1;
        }
        assert(all.take(tasks.len() as int) =~= all);
        Ok(files)
    }

    /// The variables that the binary carries for the tasks.
    pub fn extract_variables(&self, tasks: &Vec<TaskPlan>) -> (r: Result<Vec<KeyValue>, PlanError>)
        ensures
            r matches Ok(vars) && vars.deep_view() == template_variables(tasks.deep_view()),
    {
        let ghost all = tasks.deep_view();
        let mut variables: Vec<KeyValue> = Vec::new();
        let mut t: usize = 0;
        assert(variables.deep_view() =~= variables_upto(all, 0));
        while t < tasks.len()
            invariant
                t <= tasks.len(),
                all == tasks.deep_view(),
                variables.deep_view() == variables_upto(all, t as int),
            decreases tasks.len() - t,
        {
            let task = &tasks[t];
            let ghost base = variables_upto(all, t as int);
            let mut a: usize = 0;
            while a < task.args.len()
                invariant
                    t < tasks.len(),
                    a <= task.args.len(),
                    all == tasks.deep_view(),
                    task.deep_view() == all[t as int],
                    base == variables_upto(all, t as int),
                    variables.deep_view() == with_variables(base, all[t as int].args, a as int),
                decreases task.args.len() - a,
            {
                let entry = &task.args[a];
                let templated = match &entry.value {
                    ArgValue::Text(s) => str_contains(s.as_str(), "{{") && str_contains(
                        s.as_str(),
                        "}}",
                    ),
                    _ => false,
                };
                assert(templated == is_template(all[t as int].args[a as int]));
                if templated {
                    put_entry(&mut variables, entry.clone());
                }
                a += 1;
            }
            t += 1;
        }
        Ok(variables)
    }

    /// Whether some task has the module.
    fn any_task_uses(&self, tasks: &Vec<TaskPlan>, module: &str) -> (r: bool)
        ensures
            r == uses_module(tasks.deep_view(), module@),
    {
        let mut i: usize = 0;
        while i < tasks.len()
            invariant
                i <= tasks.len(),
                forall|k: int| 0 <= k < i ==> (#[trigger] tasks.deep_view()[k]).module != module@,
            decreases tasks.len() - i,
        {
            if str_eq(tasks[i].module.as_str(), module) {
                assert(tasks.deep_view()[i as int].module == module@);
                return true;
            }
            i += 1;
        }
        false
    }

    /// The facts that the tasks need.
    pub fn extract_fact_dependencies(&self, tasks: &Vec<TaskPlan>) -> (r: Result<
        Vec<String>,
        PlanError,
    >)
        ensures
            r matches Ok(facts) && facts.deep_view() == facts_required(tasks.deep_view()),
    {
        let packages = self.any_task_uses(tasks, "package");
        let services = self.any_task_uses(tasks, "service");
        let files = self.any_task_uses(tasks, "file") || self.any_task_uses(tasks, "copy")
            || self.any_task_uses(tasks, "template");
        let mut facts: Vec<String> = Vec::new();
        assert(facts.deep_view() =~= Seq::<Seq<char>>::empty());
        if packages {
            let ghost before = facts.deep_view();
            facts.push(String::from_str("ansible_os_family"));
            assert(facts.deep_view() =~= before.push("ansible_os_family"@));
            let ghost before = facts.deep_view();
            facts.push(String::from_str("ansible_pkg_mgr"));
            assert(facts.deep_view() =~= before.push("ansible_pkg_mgr"@));
        }
        if services {
            let ghost before = facts.deep_view();
            facts.push(String::from_str("ansible_service_mgr"));
            assert(facts.deep_view() =~= before.push("ansible_service_mgr"@));
        }
        if files {
            let ghost before = facts.deep_view();
            facts.push(String::from_str("ansible_user_gid"));
            assert(facts.deep_view() =~= before.push("ansible_user_gid"@));
            let ghost before = facts.deep_view();
            facts.push(String::from_str("ansible_user_uid"));
            assert(facts.deep_view() =~= before.push("ansible_user_uid"@));
        }
        Ok(facts)
    }

    /// The expected size of the binary for a group, in bytes.
    pub fn estimate_binary_size(&self, group: &TaskGroup) -> (r: Result<u64, PlanError>)
        requires
            estimated_size(group.deep_view().tasks) <= u64::MAX,
        ensures
            r matches Ok(size) && size == estimated_size(group.deep_view().tasks),
    {
        let ghost all = group.deep_view().tasks;
        let ghost pred = |t: TaskPlanView| t.module == "copy"@ || t.module == "template"@;
        let mut file_tasks: usize = 0;
        let mut i: usize = 0;
        proof {
            reveal(Seq::filter);
            assert(all.take(0) =~= Seq::<TaskPlanView>::empty());
        }
        while i < group.tasks.len()
            invariant
                i <= group.tasks.len(),
                all == group.deep_view().tasks,
                pred == (|t: TaskPlanView| t.module == "copy"@ || t.module == "template"@),
                file_tasks == all.take(i as int).filter(pred).len(),
                file_tasks <= i,
            decreases group.tasks.len() - i,
        {
            proof {
                lemma_filter_take_step(all, pred, i as int);
            }
            let module = group.tasks[i].module.as_str();
            if str_eq(module, "copy") || str_eq(module, "template") {
                file_tasks += 1;
            }
            i += 1;
        }
        assert(all.take(group.tasks.len() as int) =~= all);
        let task_count = group.tasks.len() as u64;
        Ok(BASE_BINARY_SIZE + 1024 * task_count + 10240 * (file_tasks as u64))
    }

    /// The architecture that binaries are built for.
    fn map_arch(&self, reported: Option<&String>) -> (r: String)
        ensures
            r@ == target_arch(reported.deep_view()),
    {
        match reported {
            Some(arch) => {
                let arch = arch.as_str();
                if str_eq(arch, "aarch64") || str_eq(arch, "arm64") {
                    String::from_str("aarch64")
                } else if str_eq(arch, "x86_64") {
                    String::from_str("x86_64")
                } else if str_eq(arch, "i386") || str_eq(arch, "i686") {
                    String::from_str("i686")
                } else {
                    String::from_str("x86_64")
                }
            },
            None => String::from_str("x86_64"),
        }
    }

    /// The operating system that binaries are built for.
    fn map_os(&self, reported: Option<&String>) -> (r: String)
        ensures
            r@ == target_os(reported.deep_view()),
    {
        match reported {
            Some(system) => {
                let system = system.as_str();
                if str_eq(system, "Darwin") {
                    String::from_str("macos")
                } else if str_eq(system, "Linux") {
                    String::from_str("linux")
                } else if str_eq(system, "Windows") {
                    String::from_str("windows")
                } else {
                    String::from_str("linux")
                }
            },
            None => String::from_str("linux"),
        }
    }

    /// The target of a binary for the hosts: see `target_from_facts`.
    pub fn determine_target_from_facts(
        &self,
        target_hosts: &Vec<String>,
        inventory: &ParsedInventory,
    ) -> (r: (String, String))
        ensures
            (r.0@, r.1@) == target_from_facts(
                target_hosts.deep_view(),
                inventory.deep_view().host_facts,
            ),
    {
        let ghost hosts = target_hosts.deep_view();
        let ghost facts = inventory.deep_view().host_facts;
        let mut i: usize = 0;
        assert(hosts.skip(0) =~= hosts);
        while i < target_hosts.len()
            invariant
                i <= target_hosts.len(),
                hosts == target_hosts.deep_view(),
                facts == inventory.deep_view().host_facts,
                target_from_facts(hosts, facts) == target_from_facts(hosts.skip(i as int), facts),
            decreases target_hosts.len() - i,
        {
            assert(hosts.skip(i as int)[0] == hosts[i as int]);
            assert(hosts.skip(i as int).skip(1) =~= hosts.skip(i + 1));
            match find_host_facts(&inventory.host_facts, target_hosts[i].as_str()) {
                Some(found) => {
                    let arch = self.map_arch(find_text(found, "ansible_architecture"));
                    let os = self.map_os(find_text(found, "ansible_system"));
                    return (arch, os);
                },
                None => {},
            }
            i += 1;
        }
        (String::from_str("x86_64"), String::from_str("linux"))
    }

    /// What it takes to build a binary for the hosts.
    pub fn create_compilation_requirements(
        &self,
        target_hosts: &Vec<String>,
        inventory: Option<&ParsedInventory>,
    ) -> (r: Result<CompilationRequirements, PlanError>)
        ensures
            r matches Ok(req) && req.deep_view() == compilation_requirements(
                target_hosts.deep_view(),
                inventory.deep_view(),
                self.host_arch@,
                self.host_os@,
            ),
    {
        let (target_arch, target_os) = match inventory {
            Some(inv) => self.determine_target_from_facts(target_hosts, inv),
            None => (String::from_str("x86_64"), String::from_str("linux")),
        };
        let cross_compilation = !str_eq(target_arch.as_str(), self.host_arch.as_str()) || !str_eq(
            target_os.as_str(),
            self.host_os.as_str(),
        );
        Ok(
            CompilationRequirements {
                target_arch,
                target_os,
                rust_version: String::from_str("1.70.0"),
                cross_compilation,
                static_linking: true,
            },
        )
    }

    /// The plan that the binary carries for its group, as JSON.
    pub fn serialize_group_plan(&self, group: &TaskGroup) -> (r: Result<String, PlanError>)
        ensures
            crate::json::renders(r, group_plan_json(group.deep_view())),
    {
        write_group_plan(group)
    }

    /// What the binary for a group carries besides its code.
    pub fn create_embedded_data(&self, group: &TaskGroup) -> (r: Result<
        BinaryEmbeddedData,
        PlanError,
    >)
        ensures
            r matches Ok(data) && data.deep_view() == embedded_data(group.deep_view()),
    {
        let execution_plan = self.serialize_group_plan(group)?;
        let static_files = match self.extract_static_files(&group.tasks) {
            Ok(files) => files,
            Err(e) => {
                return Err(e);
            },
        };
        let variables = match self.extract_variables(&group.tasks) {
            Ok(vars) => vars,
            Err(e) => {
                return Err(e);
            },
        };
        let facts_required = match self.extract_fact_dependencies(&group.tasks) {
            Ok(facts) => facts,
            Err(e) => {
                return Err(e);
            },
        };
        Ok(BinaryEmbeddedData { execution_plan, static_files, variables, facts_required })
    }

    /// The binary for a group on those of `hosts` that the group runs on.
    pub fn create_binary_deployment(
        &self,
        group: &TaskGroup,
        hosts: &Vec<String>,
        inventory: Option<&ParsedInventory>,
    ) -> (r: Result<BinaryDeployment, PlanError>)
        requires
            estimated_size(group.deep_view().tasks) <= u64::MAX,
        ensures
            r matches Ok(d) && d.deep_view() == binary_deployment(
                group.deep_view(),
                hosts.deep_view(),
                inventory.deep_view(),
                self.host_arch@,
                self.host_os@,
            ),
    {
        let target_hosts = retain_listed(hosts, &group.hosts);
        let embedded_data = self.create_embedded_data(group)?;
        let estimated_size = match self.estimate_binary_size(group) {
            Ok(size) => size,
            Err(e) => {
                return Err(e);
            },
        };
        let compilation_requirements = match self.create_compilation_requirements(
            &target_hosts,
            inventory,
        ) {
            Ok(req) => req,
            Err(e) => {
                return Err(e);
            },
        };
        let mut tasks: Vec<String> = Vec::new();
        let mut i: usize = 0;
        let ghost ids = group.deep_view().tasks.map_values(|t: TaskPlanView| t.task_id);
        assert(tasks.deep_view() =~= ids.take(0));
        while i < group.tasks.len()
            invariant
                i <= group.tasks.len(),
                ids == group.deep_view().tasks.map_values(|t: TaskPlanView| t.task_id),
                tasks.deep_view() == ids.take(i as int),
            decreases group.tasks.len() - i,
        {
            let ghost before = tasks.deep_view();
            tasks.push(group.tasks[i].task_id.clone());
            assert(tasks.deep_view() =~= before.push(ids[i as int]));
            assert(ids.take(i + 1) =~= before.push(ids[i as int]));
            i += 1;
        }
        assert(ids.take(group.tasks.len() as int) =~= ids);
        Ok(
            BinaryDeployment {
                deployment_id: group.id.clone(),
                target_hosts,
                binary_name: join2("rustle-runner-", group.id.as_str()),
                tasks,
                modules: clone_strings(&group.modules),
                embedded_data,
                execution_mode: BinaryExecutionMode::Controller,
                estimated_size,
                compilation_requirements,
            },
        )
    }

    /// The place of a binary of the given size among `sorted`.
    fn find_place(&self, sorted: &Vec<BinaryDeployment>, size: u64) -> (r: usize)
        ensures
            r == place_by_size(sorted.deep_view(), size),
            r <= sorted.len(),
    {
        let ghost all = sorted.deep_view();
        let mut i: usize = 0;
        assert(all.skip(0) =~= all);
        while i < sorted.len()
            invariant
                i <= sorted.len(),
                all == sorted.deep_view(),
                place_by_size(all, size) == i + place_by_size(all.skip(i as int), size),
            decreases sorted.len() - i,
        {
            assert(all.skip(i as int)[0] == all[i as int]);
            assert(all.skip(i as int).skip(1) =~= all.skip(i + 1));
            if sorted[i].estimated_size < size {
                return i;
            }
            i += 1;
        }
        assert(all.skip(sorted.len() as int) =~= Seq::<BinaryDeploymentView>::empty());
        i
    }

    /// Whether the two lists hold the same hosts in the same order.
    fn same_hosts(&self, a: &Vec<String>, b: &Vec<String>) -> (r: bool)
        ensures
            r == (a.deep_view() == b.deep_view()),
    {
        if a.len() != b.len() {
            assert(a.deep_view().len() != b.deep_view().len());
            return false;
        }
        let mut i: usize = 0;
        while i < a.len()
            invariant
                i <= a.len(),
                a.len() == b.len(),
                forall|k: int| 0 <= k < i ==> a.deep_view()[k] == b.deep_view()[k],
            decreases a.len() - i,
        {
            if !str_eq(a[i].as_str(), b[i].as_str()) {
                assert(a.deep_view()[i as int] != b.deep_view()[i as int]);
                return false;
            }
            i += 1;
        }
        assert(a.deep_view() =~= b.deep_view());
        true
    }

    /// Whether one of the binaries has the target hosts.
    fn holds_hosts(&self, deployments: &Vec<BinaryDeployment>, hosts: &Vec<String>) -> (r: bool)
        ensures
            r == has_target_hosts(deployments.deep_view(), hosts.deep_view()),
    {
        let mut k: usize = 0;
        while k < deployments.len()
            invariant
                k <= deployments.len(),
                forall|m: int|
                    0 <= m < k ==> (#[trigger] deployments.deep_view()[m]).target_hosts
                        != hosts.deep_view(),
            decreases deployments.len() - k,
        {
            if self.same_hosts(&deployments[k].target_hosts, hosts) {
                assert(deployments.deep_view()[k as int].target_hosts == hosts.deep_view());
                return true;
            }
            k += 1;
        }
        false
    }

    /// Puts the binaries in descending order of size and keeps one for each
    /// list of target hosts: the first that has it.
    pub fn optimize_binary_deployments(&self, deployments: &mut Vec<BinaryDeployment>) -> (r:
        Result<(), PlanError>)
        ensures
            r is Ok,
            final(deployments).deep_view() == optimized_deployments(old(deployments).deep_view()),
    {
        let ghost all = deployments.deep_view();
        let mut sorted: Vec<BinaryDeployment> = Vec::new();
        let mut i: usize = 0;
        assert(sorted.deep_view() =~= sorted_by_size(all, 0));
        while i < deployments.len()
            invariant
                i <= deployments.len(),
                all == deployments.deep_view(),
                sorted.deep_view() == sorted_by_size(all, i as int),
            decreases deployments.len() - i,
        {
            let item = deployments[i].clone();
            let place = self.find_place(&sorted, item.estimated_size);
            let ghost before = sorted.deep_view();
            sorted.insert(place, item);
            assert(sorted.deep_view() =~= before.insert(place as int, all[i as int]));
            i += 1;
        }
        let ghost ordered = sorted.deep_view();
        let mut kept: Vec<BinaryDeployment> = Vec::new();
        let mut j: usize = 0;
        assert(kept.deep_view() =~= without_repeated_hosts(ordered, 0));
        while j < sorted.len()
            invariant
                j <= sorted.len(),
                ordered == sorted.deep_view(),
                kept.deep_view() == without_repeated_hosts(ordered, j as int),
            decreases sorted.len() - j,
        {
            if !self.holds_hosts(&kept, &sorted[j].target_hosts) {
                let ghost before = kept.deep_view();
                kept.push(sorted[j].clone());
                assert(kept.deep_view() =~= before.push(ordered[j as int]));
            }
            j += 1;
        }
        *deployments = kept;
        Ok(())
    }

    /// The binaries for the tasks of a play on `hosts`, without facts.
    pub fn plan_deployments(&self, tasks: &Vec<TaskPlan>, hosts: &Vec<String>, threshold: u32) -> (r:
        Result<Vec<BinaryDeployment>, PlanError>)
        requires
            2 * tasks.len() <= u32::MAX,
        ensures
            deployments_are(
                r,
                planned_deployments(
                    tasks.deep_view(),
                    hosts.deep_view(),
                    threshold,
                    None,
                    self.host_arch@,
                    self.host_os@,
                ),
            ),
    {
        self.plan_deployments_with_inventory(tasks, hosts, threshold, None)
    }

    /// The binaries for the tasks of a play on `hosts`: one for every group
    /// of `task_groups` that has at least `threshold` tasks and is worth
    /// it, in descending order of size and without those that repeat the
    /// target hosts of one before them.
    pub fn plan_deployments_with_inventory(
        &self,
        tasks: &Vec<TaskPlan>,
        hosts: &Vec<String>,
        threshold: u32,
        inventory: Option<&ParsedInventory>,
    ) -> (r: Result<Vec<BinaryDeployment>, PlanError>)
        requires
            2 * tasks.len() <= u32::MAX,
        ensures
            deployments_are(
                r,
                planned_deployments(
                    tasks.deep_view(),
                    hosts.deep_view(),
                    threshold,
                    inventory.deep_view(),
                    self.host_arch@,
                    self.host_os@,
                ),
            ),
    {
        let groups = match self.analyze_task_groups(tasks) {
            Ok(groups) => groups,
            Err(e) => {
                return Err(e);
            },
        };
        let ghost all = groups.deep_view();
        let mut deployments: Vec<BinaryDeployment> = Vec::new();
        let mut i: usize = 0;
        proof {
            assert(deployments.deep_view() =~= Seq::<BinaryDeploymentView>::empty());
            lemma_group_sizes(tasks.deep_view(), Seq::empty());
        }
        while i < groups.len()
            invariant
                i <= groups.len(),
                all == groups.deep_view(),
                all == task_groups(tasks.deep_view()),
                2 * tasks.len() <= u32::MAX,
                forall|g: int|
                    0 <= g < all.len() ==> (#[trigger] all[g]).tasks.len() <= tasks.len(),
                deployments_upto(
                    all,
                    i as int,
                    hosts.deep_view(),
                    threshold,
                    inventory.deep_view(),
                    self.host_arch@,
                    self.host_os@,
                ) == deployments.deep_view(),
            decreases groups.len() - i,
        {
            let group = &groups[i];
            if group.tasks.len() >= threshold as usize {
                match self.should_use_binary(group, threshold) {
                    BinaryDeploymentDecision::Deploy { .. } => {
                        proof {
                            assert(all[i as int].tasks.len() <= tasks.len());
                            lemma_size_bound(all[i as int].tasks);
                        }
                        match self.create_binary_deployment(group, hosts, inventory) {
                            Ok(deployment) => {
                                let ghost before = deployments.deep_view();
                                let ghost added = deployment.deep_view();
                                deployments.push(deployment);
                                assert(deployments.deep_view() =~= before.push(added));
                            },
                            Err(e) => {
                                return Err(e);
                            },
                        }
                    },
                    BinaryDeploymentDecision::Skip { .. } => {},
                }
            }
            i += 1;
        }
        match self.optimize_binary_deployments(&mut deployments) {
            Ok(_) => {},
            Err(e) => {
                return Err(e);
            },
        }
        Ok(deployments)
    }

    /// The expected time to build the binaries, in nanoseconds: thirty
    /// seconds and a tenth of a second for every task.
    pub fn estimate_compilation_time(&self, deployments: &Vec<BinaryDeployment>) -> (r: Result<
        u128,
        PlanError,
    >)
        requires
            compilation_time(deployments.deep_view()) <= u128::MAX,
        ensures
            r matches Ok(t) && t == compilation_time(deployments.deep_view()),
    {
        let ghost all = deployments.deep_view();
        let ghost sizes = deployment_sizes(all);
        let mut count: u128 = 0;
        let mut i: usize = 0;
        assert(sizes.take(0) =~= Seq::<nat>::empty());
        while i < deployments.len()
            invariant
                i <= deployments.len(),
                all == deployments.deep_view(),
                sizes == deployment_sizes(all),
                count == total(sizes.take(i as int)),
                compilation_time(all) <= u128::MAX,
            decreases deployments.len() - i,
        {
            proof {
                lemma_total_step(sizes, i as int);
                lemma_total_prefix(sizes, i + 1);
                assert(PER_TASK_COMPILATION_NANOS * total(sizes) >= total(sizes))
                    by (nonlinear_arith);
            }
            count = count + deployments[i].tasks.len() as u128;
            i += 1;
        }
        assert(sizes.take(deployments.len() as int) =~= sizes);
        Ok(BASE_COMPILATION_NANOS + PER_TASK_COMPILATION_NANOS * count)
    }
}

/// Whether `r` holds the binaries `expected`.
pub open spec fn deployments_are(
    r: Result<Vec<BinaryDeployment>, PlanError>,
    expected: Seq<BinaryDeploymentView>,
) -> bool {
    r matches Ok(deployments) && deployments.deep_view() == expected
}

/// The size of a binary for at most 2^31 tasks fits in 64 bits.
pub proof fn lemma_size_bound(tasks: Seq<TaskPlanView>)
    requires
        2 * tasks.len() <= u32::MAX,
    ensures
        estimated_size(tasks) <= u64::MAX,
{
    let pred = |t: TaskPlanView| t.module == "copy"@ || t.module == "template"@;
    tasks.lemma_filter_len(pred);
    assert(file_task_count(tasks) == tasks.filter(pred).len());
}

/// The two parts into which a predicate splits a sequence have its length
/// together.
pub proof fn lemma_filter_split<A>(s: Seq<A>, pred: spec_fn(A) -> bool, other: spec_fn(A) -> bool)
    requires
        forall|a: A| #[trigger] other(a) == !pred(a),
    ensures
        s.filter(pred).len() + s.filter(other).len() == s.len(),
    decreases s.len(),
{
    reveal(Seq::filter);
    if s.len() > 0 {
        lemma_filter_split(s.drop_last(), pred, other);
    }
}

/// A group that was there before the grouping went on is still there, and
/// no new group has more tasks than were left to group.
pub proof fn lemma_group_sizes(remaining: Seq<TaskPlanView>, groups: Seq<TaskGroupView>)
    ensures
        groups_from(remaining, groups).len() >= groups.len(),
        forall|g: int|
            0 <= g < groups.len() ==> #[trigger] groups_from(remaining, groups)[g] == groups[g],
        forall|g: int|
            groups.len() <= g < groups_from(remaining, groups).len() ==> (#[trigger] groups_from(
                remaining,
                groups,
            )[g]).tasks.len() <= remaining.len(),
    decreases remaining.len(),
{
    if remaining.len() > 0 {
        let seed = remaining[0];
        let rest = remaining.skip(1);
        let joining = |t: TaskPlanView| shares_binary(seed, t);
        let staying = |t: TaskPlanView| !shares_binary(seed, t);
        let members = rest.filter(joining);
        let left = rest.filter(staying);
        lemma_filter_split(rest, joining, staying);
        let group = make_group(groups.len(), seed, members);
        if group.network_operations > 3 {
            let longer = groups.push(group);
            lemma_group_sizes(left, longer);
            let result = groups_from(left, longer);
            assert(groups_from(remaining, groups) == result);
            assert forall|g: int| 0 <= g < groups.len() implies #[trigger] result[g]
                == groups[g] by {
                assert(result[g] == longer[g]);
            }
            assert forall|g: int| groups.len() <= g < result.len() implies (
            #[trigger] result[g]).tasks.len() <= remaining.len() by {
                if g == groups.len() {
                    assert(result[g] == longer[g]);
                }
            }
        } else {
            lemma_group_sizes(left, groups);
            assert(groups_from(remaining, groups) == groups_from(left, groups));
        }
    }
}

impl Default for BinaryDeploymentPlanner {
    fn default() -> (r: Self)
        ensures
            r.host_arch@ == "x86_64"@,
            r.host_os@ == "linux"@,
    {
        BinaryDeploymentPlanner::new()
    }
}

} // verus!
