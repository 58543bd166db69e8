//! The JSON text of playbooks, inventories and task groups: what the
//! content hashes are taken of and what a binary carries as its plan.
//! Objects list their members in the order of the fields, maps in the order
//! of their entries.

use vstd::prelude::*;
use crate::planner::error::PlanError;
use crate::text::{decimal, decimal_string, join3};
use crate::types::analysis::{TaskGroup, TaskGroupView};
use crate::types::parsed::{
    HostFacts, HostFactsView, HostGroup, HostGroupView, ParsedHandler, ParsedHandlerView,
    ParsedInventory, ParsedInventoryView, ParsedPlay, ParsedPlayView, ParsedPlaybook,
    ParsedPlaybookView, ParsedTask, ParsedTaskView,
};
use crate::types::plan::{
    ArgValue, ArgValueView, ExecutionCondition, ExecutionConditionView, KeyValue, KeyValueView,
    RiskLevel, TaskPlan, TaskPlanView,
};

verus! {

/// The JSON text of a string as the JSON serializer writes it, quotes and
/// escapes included.
pub uninterp spec fn json_string(s: Seq<char>) -> Seq<char>;

/// `serde_json::to_string` on a string slice: the JSON text of the string,
/// which depends on the string alone; `json_string` is the name for it. The
/// serializer writes a string into memory, where no write fails, and reports
/// errors of writing only: it does not fail on a string.
#[verifier::external_body]
pub(crate) fn serialize_string(s: &str) -> (r: Result<String, serde_json::Error>)
    ensures
        match r {
            Ok(text) => text@ == json_string(s@),
            Err(_) => false,
        },
{
    serde_json::to_string(s)
}

/// The texts with a comma between each two.
pub open spec fn joined(items: Seq<Seq<char>>) -> Seq<char>
    decreases items.len(),
{
    if items.len() == 0 {
        Seq::empty()
    } else if items.len() == 1 {
        items[0]
    } else {
        joined(items.drop_last()) + ","@ + items.last()
    }
}

/// The text of an array of the given texts.
pub open spec fn array_text(items: Seq<Seq<char>>) -> Seq<char> {
    "["@ + joined(items) + "]"@
}

/// The text of an object with the given members.
pub open spec fn object_text(members: Seq<Seq<char>>) -> Seq<char> {
    "{"@ + joined(members) + "}"@
}

/// The text of a member: its key as JSON text, a colon, its value.
pub open spec fn member_text(key: Seq<char>, value: Seq<char>) -> Seq<char> {
    key + ":"@ + value
}

/// The text of an array of strings.
pub open spec fn strings_json(list: Seq<Seq<char>>) -> Seq<char> {
    array_text(list.map_values(|s: Seq<char>| json_string(s)))
}

/// The text of a string that may be missing.
pub open spec fn optional_string_json(s: Option<Seq<char>>) -> Seq<char> {
    match s {
        Some(t) => json_string(t),
        None => "null"@,
    }
}

/// The text of a value: a string as the serializer writes it, any other
/// value as it stands.
pub open spec fn value_json(value: ArgValueView) -> Seq<char> {
    match value {
        ArgValueView::Text(s) => json_string(s),
        ArgValueView::Json(raw) => raw,
    }
}

/// The member for an entry of a map.
pub open spec fn entry_json(entry: KeyValueView) -> Seq<char> {
    member_text(json_string(entry.key), value_json(entry.value))
}

/// The text of a map: an object with a member for every entry.
pub open spec fn entries_json(entries: Seq<KeyValueView>) -> Seq<char> {
    object_text(entries.map_values(|e: KeyValueView| entry_json(e)))
}

/// The text of a boolean.
pub open spec fn bool_json(b: bool) -> Seq<char> {
    if b {
        "true"@
    } else {
        "false"@
    }
}

/// The text of a duration in nanoseconds that may be missing: an object of
/// whole seconds and the nanoseconds beyond them.
pub open spec fn duration_json(d: Option<u128>) -> Seq<char> {
    match d {
        Some(n) => object_text(
            seq![
                member_text("\"secs\""@, decimal((n / 1_000_000_000) as nat)),
                member_text("\"nanos\""@, decimal((n % 1_000_000_000) as nat)),
            ],
        ),
        None => "null"@,
    }
}

/// The text of a risk level.
pub open spec fn risk_json(risk: RiskLevel) -> Seq<char> {
    match risk {
        RiskLevel::Low => "\"Low\""@,
        RiskLevel::Medium => "\"Medium\""@,
        RiskLevel::High => "\"High\""@,
        RiskLevel::Critical => "\"Critical\""@,
    }
}

/// The text of a condition: an object with the kind as its only key.
pub open spec fn condition_json(condition: ExecutionConditionView) -> Seq<char> {
    match condition {
        ExecutionConditionView::When { expression } => object_text(
            seq![
                member_text(
                    "\"When\""@,
                    object_text(seq![member_text("\"expression\""@, json_string(expression))]),
                ),
            ],
        ),
        ExecutionConditionView::Tag { tags } => object_text(
            seq![
                member_text("\"Tag\""@, object_text(seq![member_text("\"tags\""@, strings_json(tags))])),
            ],
        ),
        ExecutionConditionView::Host { pattern } => object_text(
            seq![
                member_text(
                    "\"Host\""@,
                    object_text(seq![member_text("\"pattern\""@, json_string(pattern))]),
                ),
            ],
        ),
        ExecutionConditionView::SkipTag { tags } => object_text(
            seq![
                member_text(
                    "\"SkipTag\""@,
                    object_text(seq![member_text("\"tags\""@, strings_json(tags))]),
                ),
            ],
        ),
        ExecutionConditionView::CheckMode { enabled } => object_text(
            seq![
                member_text(
                    "\"CheckMode\""@,
                    object_text(seq![member_text("\"enabled\""@, bool_json(enabled))]),
                ),
            ],
        ),
    }
}

/// The text of a list of conditions.
pub open spec fn conditions_json(conditions: Seq<ExecutionConditionView>) -> Seq<char> {
    array_text(conditions.map_values(|c: ExecutionConditionView| condition_json(c)))
}

/// The text of a planned task.
pub open spec fn task_plan_json(task: TaskPlanView) -> Seq<char> {
    object_text(
        seq![
            member_text("\"task_id\""@, json_string(task.task_id)),
            member_text("\"name\""@, json_string(task.name)),
            member_text("\"module\""@, json_string(task.module)),
            member_text("\"args\""@, entries_json(task.args)),
            member_text("\"hosts\""@, strings_json(task.hosts)),
            member_text("\"dependencies\""@, strings_json(task.dependencies)),
            member_text("\"conditions\""@, conditions_json(task.conditions)),
            member_text("\"tags\""@, strings_json(task.tags)),
            member_text("\"notify\""@, strings_json(task.notify)),
            member_text("\"execution_order\""@, decimal(task.execution_order as nat)),
            member_text("\"can_run_parallel\""@, bool_json(task.can_run_parallel)),
            member_text("\"estimated_duration\""@, duration_json(task.estimated_duration)),
            member_text("\"risk_level\""@, risk_json(task.risk_level)),
        ],
    )
}

/// The text of a list of planned tasks.
pub open spec fn task_plans_json(tasks: Seq<TaskPlanView>) -> Seq<char> {
    array_text(tasks.map_values(|t: TaskPlanView| task_plan_json(t)))
}

/// The plan that a binary carries for its group: the group's id, its tasks
/// and its hosts.
pub open spec fn group_plan_json(group: TaskGroupView) -> Seq<char> {
    object_text(
        seq![
            member_text("\"group_id\""@, json_string(group.id)),
            member_text("\"tasks\""@, task_plans_json(group.tasks)),
            member_text("\"hosts\""@, strings_json(group.hosts)),
        ],
    )
}

/// The text of a task of a playbook.
pub open spec fn parsed_task_json(task: ParsedTaskView) -> Seq<char> {
    object_text(
        seq![
            member_text("\"id\""@, json_string(task.id)),
            member_text("\"name\""@, json_string(task.name)),
            member_text("\"module\""@, json_string(task.module)),
            member_text("\"args\""@, entries_json(task.args)),
            member_text("\"dependencies\""@, strings_json(task.dependencies)),
            member_text("\"tags\""@, strings_json(task.tags)),
            member_text("\"when\""@, optional_string_json(task.when)),
            member_text("\"notify\""@, strings_json(task.notify)),
        ],
    )
}

/// The text of a handler of a playbook.
pub open spec fn parsed_handler_json(handler: ParsedHandlerView) -> Seq<char> {
    object_text(
        seq![
            member_text("\"id\""@, json_string(handler.id)),
            member_text("\"name\""@, json_string(handler.name)),
            member_text("\"module\""@, json_string(handler.module)),
            member_text("\"args\""@, entries_json(handler.args)),
            member_text("\"when\""@, optional_string_json(handler.when)),
        ],
    )
}

/// The text of a play.
pub open spec fn parsed_play_json(play: ParsedPlayView) -> Seq<char> {
    object_text(
        seq![
            member_text("\"name\""@, json_string(play.name)),
            member_text("\"hosts\""@, strings_json(play.hosts)),
            member_text(
                "\"tasks\""@,
                array_text(play.tasks.map_values(|t: ParsedTaskView| parsed_task_json(t))),
            ),
            member_text(
                "\"handlers\""@,
                array_text(play.handlers.map_values(|h: ParsedHandlerView| parsed_handler_json(h))),
            ),
            member_text("\"vars\""@, entries_json(play.vars)),
        ],
    )
}

/// The text of a playbook.
pub open spec fn playbook_json(playbook: ParsedPlaybookView) -> Seq<char> {
    object_text(
        seq![
            member_text("\"name\""@, json_string(playbook.name)),
            member_text(
                "\"plays\""@,
                array_text(playbook.plays.map_values(|p: ParsedPlayView| parsed_play_json(p))),
            ),
            member_text("\"vars\""@, entries_json(playbook.vars)),
        ],
    )
}

/// The member for a group of hosts: its name and the array of its hosts.
pub open spec fn host_group_json(group: HostGroupView) -> Seq<char> {
    member_text(json_string(group.name), strings_json(group.hosts))
}

/// The member for the facts of a host: its name and the object of its facts.
pub open spec fn host_facts_json(facts: HostFactsView) -> Seq<char> {
    member_text(json_string(facts.host), entries_json(facts.facts))
}

/// The text of an inventory.
pub open spec fn inventory_json(inventory: ParsedInventoryView) -> Seq<char> {
    object_text(
        seq![
            member_text("\"hosts\""@, strings_json(inventory.hosts)),
            member_text(
                "\"groups\""@,
                object_text(inventory.groups.map_values(|g: HostGroupView| host_group_json(g))),
            ),
            member_text("\"vars\""@, entries_json(inventory.vars)),
            member_text(
                "\"host_facts\""@,
                object_text(inventory.host_facts.map_values(|f: HostFactsView| host_facts_json(f))),
            ),
        ],
    )
}

/// Whether `r` is the text `expected`.
pub open spec fn renders(r: Result<String, PlanError>, expected: Seq<char>) -> bool {
    r matches Ok(text) && text@ == expected
}

/// The JSON text of a string.
pub fn write_string(s: &str) -> (r: Result<String, PlanError>)
    ensures
        renders(r, json_string(s@)),
{
    match serialize_string(s) {
        Ok(text) => Ok(text),
        Err(e) => Err(PlanError::Serialization(e)),
    }
}

/// The texts with a comma between each two.
pub fn join_items(items: &Vec<String>) -> (r: String)
    ensures
        r@ == joined(items.deep_view()),
{
    let mut out = String::new();
    let mut i: usize = 0;
    let ghost all = items.deep_view();
    assert(all.take(0) =~= Seq::<Seq<char>>::empty());
    while i < items.len()
        invariant
            i <= items.len(),
            all == items.deep_view(),
            out@ == joined(all.take(i as int)),
        decreases items.len() - i,
    {
        proof {
            assert(all.take(i + 1).drop_last() =~= all.take(i as int));
            assert(all.take(i + 1).last() == all[i as int]);
            if i == 0 {
                assert(out@ =~= Seq::<char>::empty());
                assert(out@ + all[0] =~= all[0]);
            }
        }
        if i > 0 {
            out.append(",");
        }
        out.append(items[i].as_str());
        i += 1;
    }
    assert(all.take(items.len() as int) =~= all);
    out
}

/// The text of an array of the given texts.
pub fn write_array(items: &Vec<String>) -> (r: String)
    ensures
        r@ == array_text(items.deep_view()),
{
    let inner = join_items(items);
    join3("[", inner.as_str(), "]")
}

/// The text of an object with the given members.
pub fn write_object(members: &Vec<String>) -> (r: String)
    ensures
        r@ == object_text(members.deep_view()),
{
    let inner = join_items(members);
    join3("{", inner.as_str(), "}")
}

/// The text of a member.
pub fn write_member(key: &str, value: &str) -> (r: String)
    ensures
        r@ == member_text(key@, value@),
{
    join3(key, ":", value)
}

/// The texts of the items of an array, or of the members of an object, as
/// far as they have been written.
pub(crate) struct ListWriter {
    pub(crate) texts: Vec<String>,
}

impl ListWriter {
    pub(crate) fn new() -> (r: Self)
        ensures
            r.texts.deep_view() == Seq::<Seq<char>>::empty(),
    {
        let r = ListWriter { texts: Vec::new() };
        assert(r.texts.deep_view() =~= Seq::<Seq<char>>::empty());
        r
    }

    /// Takes item `index` of `wanted`, where the items before it have been
    /// taken.
    pub(crate) fn add(
        &mut self,
        value: Result<String, PlanError>,
        Ghost(wanted): Ghost<Seq<Seq<char>>>,
        Ghost(index): Ghost<int>,
    ) -> (r: Result<(), PlanError>)
        requires
            0 <= index < wanted.len(),
            index == 0 ==> old(self).texts.deep_view() == Seq::<Seq<char>>::empty(),
            index > 0 ==> old(self).texts.deep_view() == wanted.take(index),
            renders(value, wanted[index]),
        ensures
            r is Ok,
            final(self).texts.deep_view() == wanted.take(index + 1),
    {
        let text = value?;
        let ghost before = self.texts.deep_view();
        self.texts.push(text);
        proof {
            assert(before =~= wanted.take(index));
            assert(self.texts.deep_view() =~= before.push(text@));
            assert(wanted.take(index + 1) =~= before.push(wanted[index]));
        }
        Ok(())
    }

    /// Takes member `index` of `wanted`, which has the given key.
    pub(crate) fn add_member(
        &mut self,
        key: &str,
        value: Result<String, PlanError>,
        Ghost(wanted): Ghost<Seq<Seq<char>>>,
        Ghost(index): Ghost<int>,
        Ghost(expected): Ghost<Seq<char>>,
    ) -> (r: Result<(), PlanError>)
        requires
            0 <= index < wanted.len(),
            index == 0 ==> old(self).texts.deep_view() == Seq::<Seq<char>>::empty(),
            index > 0 ==> old(self).texts.deep_view() == wanted.take(index),
            renders(value, expected),
            wanted[index] == member_text(key@, expected),
        ensures
            r is Ok,
            final(self).texts.deep_view() == wanted.take(index + 1),
    {
        let text = value?;
        self.add(Ok(write_member(key, text.as_str())), Ghost(wanted), Ghost(index))
    }

    /// The array of the items of `wanted`, all of which have been taken.
    pub(crate) fn into_array(self, Ghost(wanted): Ghost<Seq<Seq<char>>>) -> (r: String)
        requires
            wanted.len() == 0 ==> self.texts.deep_view() == Seq::<Seq<char>>::empty(),
            wanted.len() > 0 ==> self.texts.deep_view() == wanted.take(wanted.len() as int),
        ensures
            r@ == array_text(wanted),
    {
        proof {
            assert(wanted.take(wanted.len() as int) =~= wanted);
            assert(self.texts.deep_view() =~= wanted);
        }
        write_array(&self.texts)
    }

    /// The object of the members of `wanted`, all of which have been taken.
    pub(crate) fn into_object(self, Ghost(wanted): Ghost<Seq<Seq<char>>>) -> (r: String)
        requires
            wanted.len() == 0 ==> self.texts.deep_view() == Seq::<Seq<char>>::empty(),
            wanted.len() > 0 ==> self.texts.deep_view() == wanted.take(wanted.len() as int),
        ensures
            r@ == object_text(wanted),
    {
        proof {
            assert(wanted.take(wanted.len() as int) =~= wanted);
            assert(self.texts.deep_view() =~= wanted);
        }
        write_object(&self.texts)
    }
}

/// The text of an array of strings.
pub fn write_strings(list: &Vec<String>) -> (r: Result<String, PlanError>)
    ensures
        renders(r, strings_json(list.deep_view())),
{
    let ghost wanted = list.deep_view().map_values(|s: Seq<char>| json_string(s));
    let mut writer = ListWriter::new();
    let mut i: usize = 0;
    while i < list.len()
        invariant
            i <= list.len(),
            wanted == list.deep_view().map_values(|s: Seq<char>| json_string(s)),
            i == 0 ==> writer.texts.deep_view() == Seq::<Seq<char>>::empty(),
            i > 0 ==> writer.texts.deep_view() == wanted.take(i as int),
        decreases list.len() - i,
    {
        writer.add(write_string(list[i].as_str()), Ghost(wanted), Ghost(i as int))?;
        i += 1;
    }
    Ok(writer.into_array(Ghost(wanted)))
}

/// The text of a string that may be missing.
pub fn write_optional_string(s: &Option<String>) -> (r: Result<String, PlanError>)
    ensures
        renders(r, optional_string_json(s.deep_view())),
{
    match s {
        Some(t) => write_string(t.as_str()),
        None => Ok(String::from_str("null")),
    }
}

/// The text of a value.
pub fn write_value(value: &ArgValue) -> (r: Result<String, PlanError>)
    ensures
        renders(r, value_json(value.deep_view())),
{
    match value {
        ArgValue::Text(s) => write_string(s.as_str()),
        ArgValue::Json(raw) => Ok(raw.clone()),
    }
}

/// The member for an entry of a map.
pub fn write_entry(entry: &KeyValue) -> (r: Result<String, PlanError>)
    ensures
        renders(r, entry_json(entry.deep_view())),
{
    let key = write_string(entry.key.as_str())?;
    let value = write_value(&entry.value)?;
    Ok(write_member(key.as_str(), value.as_str()))
}

/// The text of a map.
pub fn write_entries(entries: &Vec<KeyValue>) -> (r: Result<String, PlanError>)
    ensures
        renders(r, entries_json(entries.deep_view())),
{
    let ghost wanted = entries.deep_view().map_values(|e: KeyValueView| entry_json(e));
    let mut writer = ListWriter::new();
    let mut i: usize = 0;
    while i < entries.len()
        invariant
            i <= entries.len(),
            wanted == entries.deep_view().map_values(|e: KeyValueView| entry_json(e)),
            i == 0 ==> writer.texts.deep_view() == Seq::<Seq<char>>::empty(),
            i > 0 ==> writer.texts.deep_view() == wanted.take(i as int),
        decreases entries.len() - i,
    {
        writer.add(write_entry(&entries[i]), Ghost(wanted), Ghost(i as int))?;
        i += 1;
    }
    Ok(writer.into_object(Ghost(wanted)))
}

/// The text of a boolean.
pub fn write_bool(b: bool) -> (r: String)
    ensures
        r@ == bool_json(b),
{
    if b {
        String::from_str("true")
    } else {
        String::from_str("false")
    }
}

/// The text of a duration that may be missing.
pub fn write_duration(d: Option<u128>) -> (r: String)
    ensures
        r@ == duration_json(d),
{
    match d {
        Some(n) => {
            let secs = decimal_string(n / 1_000_000_000);
            let nanos = decimal_string(n % 1_000_000_000);
            let mut members: Vec<String> = Vec::new();
            members.push(write_member("\"secs\"", secs.as_str()));
            members.push(write_member("\"nanos\"", nanos.as_str()));
            assert(members.deep_view() =~= seq![
                member_text("\"secs\""@, decimal((n / 1_000_000_000) as nat)),
                member_text("\"nanos\""@, decimal((n % 1_000_000_000) as nat)),
            ]);
            write_object(&members)
        },
        None => String::from_str("null"),
    }
}

/// The text of a risk level.
pub fn write_risk(risk: RiskLevel) -> (r: String)
    ensures
        r@ == risk_json(risk),
{
    match risk {
        RiskLevel::Low => String::from_str("\"Low\""),
        RiskLevel::Medium => String::from_str("\"Medium\""),
        RiskLevel::High => String::from_str("\"High\""),
        RiskLevel::Critical => String::from_str("\"Critical\""),
    }
}

/// The object with one member, of the given key.
pub(crate) fn write_single(key: &str, value: Result<String, PlanError>, Ghost(expected): Ghost<Seq<char>>) -> (r: Result<String, PlanError>)
    requires
        renders(value, expected),
    ensures
        renders(r, object_text(seq![member_text(key@, expected)])),
{
    let ghost wanted = seq![member_text(key@, expected)];
    let mut writer = ListWriter::new();
    writer.add_member(key, value, Ghost(wanted), Ghost(0), Ghost(expected))?;
    Ok(writer.into_object(Ghost(wanted)))
}

/// The text of a condition.
pub fn write_condition(condition: &ExecutionCondition) -> (r: Result<String, PlanError>)
    ensures
        renders(r, condition_json(condition.deep_view())),
{
    match condition {
        ExecutionCondition::When { expression } => {
            let inner = write_single(
                "\"expression\"",
                write_string(expression.as_str()),
                Ghost(json_string(expression@)),
            );
            write_single(
                "\"When\"",
                inner,
                Ghost(object_text(seq![member_text("\"expression\""@, json_string(expression@))])),
            )
        },
        ExecutionCondition::Tag { tags } => {
            let inner = write_single(
                "\"tags\"",
                write_strings(tags),
                Ghost(strings_json(tags.deep_view())),
            );
            write_single(
                "\"Tag\"",
                inner,
                Ghost(object_text(seq![member_text("\"tags\""@, strings_json(tags.deep_view()))])),
            )
        },
        ExecutionCondition::Host { pattern } => {
            let inner = write_single(
                "\"pattern\"",
                write_string(pattern.as_str()),
                Ghost(json_string(pattern@)),
            );
            write_single(
                "\"Host\"",
                inner,
                Ghost(object_text(seq![member_text("\"pattern\""@, json_string(pattern@))])),
            )
        },
        ExecutionCondition::SkipTag { tags } => {
            let inner = write_single(
                "\"tags\"",
                write_strings(tags),
                Ghost(strings_json(tags.deep_view())),
            );
            write_single(
                "\"SkipTag\"",
                inner,
                Ghost(object_text(seq![member_text("\"tags\""@, strings_json(tags.deep_view()))])),
            )
        },
        ExecutionCondition::CheckMode { enabled } => {
            let inner = write_single(
                "\"enabled\"",
                Ok(write_bool(*enabled)),
                Ghost(bool_json(*enabled)),
            );
            write_single(
                "\"CheckMode\"",
                inner,
                Ghost(object_text(seq![member_text("\"enabled\""@, bool_json(*enabled))])),
            )
        },
    }
}

/// The text of a list of conditions.
pub fn write_conditions(conditions: &Vec<ExecutionCondition>) -> (r: Result<String, PlanError>)
    ensures
        renders(r, conditions_json(conditions.deep_view())),
{
    let ghost wanted = conditions.deep_view().map_values(
        |c: ExecutionConditionView| condition_json(c),
    );
    let mut writer = ListWriter::new();
    let mut i: usize = 0;
    while i < conditions.len()
        invariant
            i <= conditions.len(),
            wanted == conditions.deep_view().map_values(
                |c: ExecutionConditionView| condition_json(c),
            ),
            i == 0 ==> writer.texts.deep_view() == Seq::<Seq<char>>::empty(),
            i > 0 ==> writer.texts.deep_view() == wanted.take(i as int),
        decreases conditions.len() - i,
    {
        writer.add(write_condition(&conditions[i]), Ghost(wanted), Ghost(i as int))?;
        i += 1;
    }
    Ok(writer.into_array(Ghost(wanted)))
}

/// The text of a planned task.
pub fn write_task_plan(task: &TaskPlan) -> (r: Result<String, PlanError>)
    ensures
        renders(r, task_plan_json(task.deep_view())),
{
    let ghost v = task.deep_view();
    let ghost wanted = seq![
        member_text("\"task_id\""@, json_string(v.task_id)),
        member_text("\"name\""@, json_string(v.name)),
        member_text("\"module\""@, json_string(v.module)),
        member_text("\"args\""@, entries_json(v.args)),
        member_text("\"hosts\""@, strings_json(v.hosts)),
        member_text("\"dependencies\""@, strings_json(v.dependencies)),
        member_text("\"conditions\""@, conditions_json(v.conditions)),
        member_text("\"tags\""@, strings_json(v.tags)),
        member_text("\"notify\""@, strings_json(v.notify)),
        member_text("\"execution_order\""@, decimal(v.execution_order as nat)),
        member_text("\"can_run_parallel\""@, bool_json(v.can_run_parallel)),
        member_text("\"estimated_duration\""@, duration_json(v.estimated_duration)),
        member_text("\"risk_level\""@, risk_json(v.risk_level)),
    ];
    let mut w = ListWriter::new();
    w.add_member(
        "\"task_id\"",
        write_string(task.task_id.as_str()),
        Ghost(wanted),
        Ghost(0),
        Ghost(json_string(v.task_id)),
    )?;
    w.add_member(
        "\"name\"",
        write_string(task.name.as_str()),
        Ghost(wanted),
        Ghost(1),
        Ghost(json_string(v.name)),
    )?;
    w.add_member(
        "\"module\"",
        write_string(task.module.as_str()),
        Ghost(wanted),
        Ghost(2),
        Ghost(json_string(v.module)),
    )?;
    w.add_member(
        "\"args\"",
        write_entries(&task.args),
        Ghost(wanted),
        Ghost(3),
        Ghost(entries_json(v.args)),
    )?;
    w.add_member(
        "\"hosts\"",
        write_strings(&task.hosts),
        Ghost(wanted),
        Ghost(4),
        Ghost(strings_json(v.hosts)),
    )?;
    w.add_member(
        "\"dependencies\"",
        write_strings(&task.dependencies),
        Ghost(wanted),
        Ghost(5),
        Ghost(strings_json(v.dependencies)),
    )?;
    w.add_member(
        "\"conditions\"",
        write_conditions(&task.conditions),
        Ghost(wanted),
        Ghost(6),
        Ghost(conditions_json(v.conditions)),
    )?;
    w.add_member(
        "\"tags\"",
        write_strings(&task.tags),
        Ghost(wanted),
        Ghost(7),
        Ghost(strings_json(v.tags)),
    )?;
    w.add_member(
        "\"notify\"",
        write_strings(&task.notify),
        Ghost(wanted),
        Ghost(8),
        Ghost(strings_json(v.notify)),
    )?;
    w.add_member(
        "\"execution_order\"",
        Ok(decimal_string(task.execution_order as u128)),
        Ghost(wanted),
        Ghost(9),
        Ghost(decimal(v.execution_order as nat)),
    )?;
    w.add_member(
        "\"can_run_parallel\"",
        Ok(write_bool(task.can_run_parallel)),
        Ghost(wanted),
        Ghost(10),
        Ghost(bool_json(v.can_run_parallel)),
    )?;
    w.add_member(
        "\"estimated_duration\"",
        Ok(write_duration(task.estimated_duration)),
        Ghost(wanted),
        Ghost(11),
        Ghost(duration_json(v.estimated_duration)),
    )?;
    w.add_member(
        "\"risk_level\"",
        Ok(write_risk(task.risk_level)),
        Ghost(wanted),
        Ghost(12),
        Ghost(risk_json(v.risk_level)),
    )?;
    Ok(w.into_object(Ghost(wanted)))
}

/// The text of a list of planned tasks.
pub fn write_task_plans(tasks: &Vec<TaskPlan>) -> (r: Result<String, PlanError>)
    ensures
        renders(r, task_plans_json(tasks.deep_view())),
{
    let ghost wanted = tasks.deep_view().map_values(|t: TaskPlanView| task_plan_json(t));
    let mut writer = ListWriter::new();
    let mut i: usize = 0;
    while i < tasks.len()
        invariant
            i <= tasks.len(),
            wanted == tasks.deep_view().map_values(|t: TaskPlanView| task_plan_json(t)),
            i == 0 ==> writer.texts.deep_view() == Seq::<Seq<char>>::empty(),
            i > 0 ==> writer.texts.deep_view() == wanted.take(i as int),
        decreases tasks.len() - i,
    {
        writer.add(write_task_plan(&tasks[i]), Ghost(wanted), Ghost(i as int))?;
        i += 1;
    }
    Ok(writer.into_array(Ghost(wanted)))
}

/// The plan that a binary carries for its group.
pub fn write_group_plan(group: &TaskGroup) -> (r: Result<String, PlanError>)
    ensures
        renders(r, group_plan_json(group.deep_view())),
{
    let ghost v = group.deep_view();
    let ghost wanted = seq![
        member_text("\"group_id\""@, json_string(v.id)),
        member_text("\"tasks\""@, task_plans_json(v.tasks)),
        member_text("\"hosts\""@, strings_json(v.hosts)),
    ];
    let mut w = ListWriter::new();
    w.add_member(
        "\"group_id\"",
        write_string(group.id.as_str()),
        Ghost(wanted),
        Ghost(0),
        Ghost(json_string(v.id)),
    )?;
    w.add_member(
        "\"tasks\"",
        write_task_plans(&group.tasks),
        Ghost(wanted),
        Ghost(1),
        Ghost(task_plans_json(v.tasks)),
    )?;
    w.add_member(
        "\"hosts\"",
        write_strings(&group.hosts),
        Ghost(wanted),
        Ghost(2),
        Ghost(strings_json(v.hosts)),
    )?;
    Ok(w.into_object(Ghost(wanted)))
}

/// The text of a task of a playbook.
pub fn write_parsed_task(task: &ParsedTask) -> (r: Result<String, PlanError>)
    ensures
        renders(r, parsed_task_json(task.deep_view())),
{
    let ghost v = task.deep_view();
    let ghost wanted = seq![
        member_text("\"id\""@, json_string(v.id)),
        member_text("\"name\""@, json_string(v.name)),
        member_text("\"module\""@, json_string(v.module)),
        member_text("\"args\""@, entries_json(v.args)),
        member_text("\"dependencies\""@, strings_json(v.dependencies)),
        member_text("\"tags\""@, strings_json(v.tags)),
        member_text("\"when\""@, optional_string_json(v.when)),
        member_text("\"notify\""@, strings_json(v.notify)),
    ];
    let mut w = ListWriter::new();
    w.add_member(
        "\"id\"",
        write_string(task.id.as_str()),
        Ghost(wanted),
        Ghost(0),
        Ghost(json_string(v.id)),
    )?;
    w.add_member(
        "\"name\"",
        write_string(task.name.as_str()),
        Ghost(wanted),
        Ghost(1),
        Ghost(json_string(v.name)),
    )?;
    w.add_member(
        "\"module\"",
        write_string(task.module.as_str()),
        Ghost(wanted),
        Ghost(2),
        Ghost(json_string(v.module)),
    )?;
    w.add_member(
        "\"args\"",
        write_entries(&task.args),
        Ghost(wanted),
        Ghost(3),
        Ghost(entries_json(v.args)),
    )?;
    w.add_member(
        "\"dependencies\"",
        write_strings(&task.dependencies),
        Ghost(wanted),
        Ghost(4),
        Ghost(strings_json(v.dependencies)),
    )?;
    w.add_member(
        "\"tags\"",
        write_strings(&task.tags),
        Ghost(wanted),
        Ghost(5),
        Ghost(strings_json(v.tags)),
    )?;
    w.add_member(
        "\"when\"",
        write_optional_string(&task.when),
        Ghost(wanted),
        Ghost(6),
        Ghost(optional_string_json(v.when)),
    )?;
    w.add_member(
        "\"notify\"",
        write_strings(&task.notify),
        Ghost(wanted),
        Ghost(7),
        Ghost(strings_json(v.notify)),
    )?;
    Ok(w.into_object(Ghost(wanted)))
}

/// The text of a handler of a playbook.
pub fn write_parsed_handler(handler: &ParsedHandler) -> (r: Result<String, PlanError>)
    ensures
        renders(r, parsed_handler_json(handler.deep_view())),
{
    let ghost v = handler.deep_view();
    let ghost wanted = seq![
        member_text("\"id\""@, json_string(v.id)),
        member_text("\"name\""@, json_string(v.name)),
        member_text("\"module\""@, json_string(v.module)),
        member_text("\"args\""@, entries_json(v.args)),
        member_text("\"when\""@, optional_string_json(v.when)),
    ];
    let mut w = ListWriter::new();
    w.add_member(
        "\"id\"",
        write_string(handler.id.as_str()),
        Ghost(wanted),
        Ghost(0),
        Ghost(json_string(v.id)),
    )?;
    w.add_member(
        "\"name\"",
        write_string(handler.name.as_str()),
        Ghost(wanted),
        Ghost(1),
        Ghost(json_string(v.name)),
    )?;
    w.add_member(
        "\"module\"",
        write_string(handler.module.as_str()),
        Ghost(wanted),
        Ghost(2),
        Ghost(json_string(v.module)),
    )?;
    w.add_member(
        "\"args\"",
        write_entries(&handler.args),
        Ghost(wanted),
        Ghost(3),
        Ghost(entries_json(v.args)),
    )?;
    w.add_member(
        "\"when\"",
        write_optional_string(&handler.when),
        Ghost(wanted),
        Ghost(4),
        Ghost(optional_string_json(v.when)),
    )?;
    Ok(w.into_object(Ghost(wanted)))
}

/// The text of the tasks of a play.
pub fn write_parsed_tasks(tasks: &Vec<ParsedTask>) -> (r: Result<String, PlanError>)
    ensures
        renders(
            r,
            array_text(tasks.deep_view().map_values(|t: ParsedTaskView| parsed_task_json(t))),
        ),
{
    let ghost wanted = tasks.deep_view().map_values(|t: ParsedTaskView| parsed_task_json(t));
    let mut writer = ListWriter::new();
    let mut i: usize = 0;
    while i < tasks.len()
        invariant
            i <= tasks.len(),
            wanted == tasks.deep_view().map_values(|t: ParsedTaskView| parsed_task_json(t)),
            i == 0 ==> writer.texts.deep_view() == Seq::<Seq<char>>::empty(),
            i > 0 ==> writer.texts.deep_view() == wanted.take(i as int),
        decreases tasks.len() - i,
    {
        writer.add(write_parsed_task(&tasks[i]), Ghost(wanted), Ghost(i as int))?;
        i += 1;
    }
    Ok(writer.into_array(Ghost(wanted)))
}

/// The text of the handlers of a play.
pub fn write_parsed_handlers(handlers: &Vec<ParsedHandler>) -> (r: Result<String, PlanError>)
    ensures
        renders(
            r,
            array_text(
                handlers.deep_view().map_values(|h: ParsedHandlerView| parsed_handler_json(h)),
            ),
        ),
{
    let ghost wanted = handlers.deep_view().map_values(
        |h: ParsedHandlerView| parsed_handler_json(h),
    );
    let mut writer = ListWriter::new();
    let mut i: usize = 0;
    while i < handlers.len()
        invariant
            i <= handlers.len(),
            wanted == handlers.deep_view().map_values(
                |h: ParsedHandlerView| parsed_handler_json(h),
            ),
            i == 0 ==> writer.texts.deep_view() == Seq::<Seq<char>>::empty(),
            i > 0 ==> writer.texts.deep_view() == wanted.take(i as int),
        decreases handlers.len() - i,
    {
        writer.add(write_parsed_handler(&handlers[i]), Ghost(wanted), Ghost(i as int))?;
        i += 1;
    }
    Ok(writer.into_array(Ghost(wanted)))
}

/// The text of a play.
pub fn write_play(play: &ParsedPlay) -> (r: Result<String, PlanError>)
    ensures
        renders(r, parsed_play_json(play.deep_view())),
{
    let ghost v = play.deep_view();
    let ghost tasks = array_text(v.tasks.map_values(|t: ParsedTaskView| parsed_task_json(t)));
    let ghost handlers = array_text(
        v.handlers.map_values(|h: ParsedHandlerView| parsed_handler_json(h)),
    );
    let ghost wanted = seq![
        member_text("\"name\""@, json_string(v.name)),
        member_text("\"hosts\""@, strings_json(v.hosts)),
        member_text("\"tasks\""@, tasks),
        member_text("\"handlers\""@, handlers),
        member_text("\"vars\""@, entries_json(v.vars)),
    ];
    let mut w = ListWriter::new();
    w.add_member(
        "\"name\"",
        write_string(play.name.as_str()),
        Ghost(wanted),
        Ghost(0),
        Ghost(json_string(v.name)),
    )?;
    w.add_member(
        "\"hosts\"",
        write_strings(&play.hosts),
        Ghost(wanted),
        Ghost(1),
        Ghost(strings_json(v.hosts)),
    )?;
    w.add_member("\"tasks\"", write_parsed_tasks(&play.tasks), Ghost(wanted), Ghost(2), Ghost(tasks))?;
    w.add_member(
        "\"handlers\"",
        write_parsed_handlers(&play.handlers),
        Ghost(wanted),
        Ghost(3),
        Ghost(handlers),
    )?;
    w.add_member(
        "\"vars\"",
        write_entries(&play.vars),
        Ghost(wanted),
        Ghost(4),
        Ghost(entries_json(v.vars)),
    )?;
    Ok(w.into_object(Ghost(wanted)))
}

/// The text of the plays of a playbook.
pub fn write_plays(plays: &Vec<ParsedPlay>) -> (r: Result<String, PlanError>)
    ensures
        renders(r, array_text(plays.deep_view().map_values(|p: ParsedPlayView| parsed_play_json(p)))),
{
    let ghost wanted = plays.deep_view().map_values(|p: ParsedPlayView| parsed_play_json(p));
    let mut writer = ListWriter::new();
    let mut i: usize = 0;
    while i < plays.len()
        invariant
            i <= plays.len(),
            wanted == plays.deep_view().map_values(|p: ParsedPlayView| parsed_play_json(p)),
            i == 0 ==> writer.texts.deep_view() == Seq::<Seq<char>>::empty(),
            i > 0 ==> writer.texts.deep_view() == wanted.take(i as int),
        decreases plays.len() - i,
    {
        writer.add(write_play(&plays[i]), Ghost(wanted), Ghost(i as int))?;
        i += 1;
    }
    Ok(writer.into_array(Ghost(wanted)))
}

/// The text of a playbook.
pub fn write_playbook(playbook: &ParsedPlaybook) -> (r: Result<String, PlanError>)
    ensures
        renders(r, playbook_json(playbook.deep_view())),
{
    let ghost v = playbook.deep_view();
    let ghost plays = array_text(v.plays.map_values(|p: ParsedPlayView| parsed_play_json(p)));
    let ghost wanted = seq![
        member_text("\"name\""@, json_string(v.name)),
        member_text("\"plays\""@, plays),
        member_text("\"vars\""@, entries_json(v.vars)),
    ];
    let mut w = ListWriter::new();
    w.add_member(
        "\"name\"",
        write_string(playbook.name.as_str()),
        Ghost(wanted),
        Ghost(0),
        Ghost(json_string(v.name)),
    )?;
    w.add_member("\"plays\"", write_plays(&playbook.plays), Ghost(wanted), Ghost(1), Ghost(plays))?;
    w.add_member(
        "\"vars\"",
        write_entries(&playbook.vars),
        Ghost(wanted),
        Ghost(2),
        Ghost(entries_json(v.vars)),
    )?;
    Ok(w.into_object(Ghost(wanted)))
}

/// The member for a group of hosts.
pub fn write_host_group(group: &HostGroup) -> (r: Result<String, PlanError>)
    ensures
        renders(r, host_group_json(group.deep_view())),
{
    let key = write_string(group.name.as_str())?;
    let value = write_strings(&group.hosts)?;
    Ok(write_member(key.as_str(), value.as_str()))
}

/// The member for the facts of a host.
pub fn write_host_facts(facts: &HostFacts) -> (r: Result<String, PlanError>)
    ensures
        renders(r, host_facts_json(facts.deep_view())),
{
    let key = write_string(facts.host.as_str())?;
    let value = write_entries(&facts.facts)?;
    Ok(write_member(key.as_str(), value.as_str()))
}

/// The text of the groups of an inventory.
pub fn write_host_groups(groups: &Vec<HostGroup>) -> (r: Result<String, PlanError>)
    ensures
        renders(r, object_text(groups.deep_view().map_values(|g: HostGroupView| host_group_json(g)))),
{
    let ghost wanted = groups.deep_view().map_values(|g: HostGroupView| host_group_json(g));
    let mut writer = ListWriter::new();
    let mut i: usize = 0;
    while i < groups.len()
        invariant
            i <= groups.len(),
            wanted == groups.deep_view().map_values(|g: HostGroupView| host_group_json(g)),
            i == 0 ==> writer.texts.deep_view() == Seq::<Seq<char>>::empty(),
            i > 0 ==> writer.texts.deep_view() == wanted.take(i as int),
        decreases groups.len() - i,
    {
        writer.add(write_host_group(&groups[i]), Ghost(wanted), Ghost(i as int))?;
        i += 1;
    }
    Ok(writer.into_object(Ghost(wanted)))
}

/// The text of the host facts of an inventory.
pub fn write_all_host_facts(facts: &Vec<HostFacts>) -> (r: Result<String, PlanError>)
    ensures
        renders(r, object_text(facts.deep_view().map_values(|f: HostFactsView| host_facts_json(f)))),
{
    let ghost wanted = facts.deep_view().map_values(|f: HostFactsView| host_facts_json(f));
    let mut writer = ListWriter::new();
    let mut i: usize = 0;
    while i < facts.len()
        invariant
            i <= facts.len(),
            wanted == facts.deep_view().map_values(|f: HostFactsView| host_facts_json(f)),
            i == 0 ==> writer.texts.deep_view() == Seq::<Seq<char>>::empty(),
            i > 0 ==> writer.texts.deep_view() == wanted.take(i as int),
        decreases facts.len() - i,
    {
        writer.add(write_host_facts(&facts[i]), Ghost(wanted), Ghost(i as int))?;
        i += 1;
    }
    Ok(writer.into_object(Ghost(wanted)))
}

/// The text of an inventory.
pub fn write_inventory(inventory: &ParsedInventory) -> (r: Result<String, PlanError>)
    ensures
        renders(r, inventory_json(inventory.deep_view())),
{
    let ghost v = inventory.deep_view();
    let ghost groups = object_text(v.groups.map_values(|g: HostGroupView| host_group_json(g)));
    let ghost facts = object_text(v.host_facts.map_values(|f: HostFactsView| host_facts_json(f)));
    let ghost wanted = seq![
        member_text("\"hosts\""@, strings_json(v.hosts)),
        member_text("\"groups\""@, groups),
        member_text("\"vars\""@, entries_json(v.vars)),
        member_text("\"host_facts\""@, facts),
    ];
    let mut w = ListWriter::new();
    w.add_member(
        "\"hosts\"",
        write_strings(&inventory.hosts),
        Ghost(wanted),
        Ghost(0),
        Ghost(strings_json(v.hosts)),
    )?;
    w.add_member(
        "\"groups\"",
        write_host_groups(&inventory.groups),
        Ghost(wanted),
        Ghost(1),
        Ghost(groups),
    )?;
    w.add_member(
        "\"vars\"",
        write_entries(&inventory.vars),
        Ghost(wanted),
        Ghost(2),
        Ghost(entries_json(v.vars)),
    )?;
    w.add_member(
        "\"host_facts\"",
        write_all_host_facts(&inventory.host_facts),
        Ghost(wanted),
        Ghost(3),
        Ghost(facts),
    )?;
    Ok(w.into_object(Ghost(wanted)))
}

} // verus!
