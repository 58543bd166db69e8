//! A playbook and an inventory as the parser hands them over.

use vstd::prelude::*;
use crate::text::clone_strings;
use crate::types::plan::{clone_entries, ArgValue, ArgValueView, KeyValue, KeyValueView};

verus! {

/// The value of the first entry under `key`, if there is one.
pub open spec fn lookup(entries: Seq<KeyValueView>, key: Seq<char>) -> Option<ArgValueView>
    decreases entries.len(),
{
    if entries.len() == 0 {
        None
    } else if entries[0].key == key {
        Some(entries[0].value)
    } else {
        lookup(entries.skip(1), key)
    }
}

/// The string under `key`, if there is an entry under `key` and its value is
/// a string.
pub open spec fn lookup_text(entries: Seq<KeyValueView>, key: Seq<char>) -> Option<Seq<char>> {
    match lookup(entries, key) {
        Some(ArgValueView::Text(s)) => Some(s),
        _ => None,
    }
}

/// Whether there is an entry under `key`.
pub open spec fn has_key(entries: Seq<KeyValueView>, key: Seq<char>) -> bool {
    lookup(entries, key) is Some
}

/// The value of the first entry under `key`.
pub fn find_value<'a>(entries: &'a Vec<KeyValue>, key: &str) -> (r: Option<&'a ArgValue>)
    ensures
        r.deep_view() == lookup(entries.deep_view(), key@),
{
    let mut i: usize = 0;
    assert(entries.deep_view().skip(0) =~= entries.deep_view());
    while i < entries.len()
        invariant
            i <= entries.len(),
            lookup(entries.deep_view(), key@) == lookup(entries.deep_view().skip(i as int), key@),
        decreases entries.len() - i,
    {
        assert(entries.deep_view().skip(i as int)[0] == entries.deep_view()[i as int]);
        assert(entries.deep_view().skip(i as int).skip(1) =~= entries.deep_view().skip(i + 1));
        if crate::text::str_eq(entries[i].key.as_str(), key) {
            return Some(&entries[i].value);
        }
        i += 1;
    }
    None
}

/// The string under `key`: see `lookup_text`.
pub fn find_text<'a>(entries: &'a Vec<KeyValue>, key: &str) -> (r: Option<&'a String>)
    ensures
        r.deep_view() == lookup_text(entries.deep_view(), key@),
{
    match find_value(entries, key) {
        Some(ArgValue::Text(s)) => Some(s),
        _ => None,
    }
}

/// Whether there is an entry under `key`.
pub fn contains_key(entries: &Vec<KeyValue>, key: &str) -> (r: bool)
    ensures
        r == has_key(entries.deep_view(), key@),
{
    find_value(entries, key).is_some()
}

#[derive(Debug)]
pub struct ParsedTask {
    pub id: String,
    pub name: String,
    pub module: String,
    pub args: Vec<KeyValue>,
    pub dependencies: Vec<String>,
    pub tags: Vec<String>,
    pub when: Option<String>,
    pub notify: Vec<String>,
}

pub struct ParsedTaskView {
    pub id: Seq<char>,
    pub name: Seq<char>,
    pub module: Seq<char>,
    pub args: Seq<KeyValueView>,
    pub dependencies: Seq<Seq<char>>,
    pub tags: Seq<Seq<char>>,
    pub when: Option<Seq<char>>,
    pub notify: Seq<Seq<char>>,
}

impl DeepView for ParsedTask {
    type V = ParsedTaskView;

    open spec fn deep_view(&self) -> ParsedTaskView {
        ParsedTaskView {
            id: self.id@,
            name: self.name@,
            module: self.module@,
            args: self.args.deep_view(),
            dependencies: self.dependencies.deep_view(),
            tags: self.tags.deep_view(),
            when: self.when.deep_view(),
            notify: self.notify.deep_view(),
        }
    }
}

/// A copy of an optional string.
pub fn clone_optional_string(s: &Option<String>) -> (r: Option<String>)
    ensures
        r.deep_view() == s.deep_view(),
{
    match s {
        Some(t) => Some(t.clone()),
        None => None,
    }
}

impl Clone for ParsedTask {
    fn clone(&self) -> (r: Self)
        ensures
            r.deep_view() == self.deep_view(),
    {
        ParsedTask {
            id: self.id.clone(),
            name: self.name.clone(),
            module: self.module.clone(),
            args: clone_entries(&self.args),
            dependencies: clone_strings(&self.dependencies),
            tags: clone_strings(&self.tags),
            when: clone_optional_string(&self.when),
            notify: clone_strings(&self.notify),
        }
    }
}

#[derive(Debug)]
pub struct ParsedHandler {
    pub id: String,
    pub name: String,
    pub module: String,
    pub args: Vec<KeyValue>,
    pub when: Option<String>,
}

pub struct ParsedHandlerView {
    pub id: Seq<char>,
    pub name: Seq<char>,
    pub module: Seq<char>,
    pub args: Seq<KeyValueView>,
    pub when: Option<Seq<char>>,
}

impl DeepView for ParsedHandler {
    type V = ParsedHandlerView;

    open spec fn deep_view(&self) -> ParsedHandlerView {
        ParsedHandlerView {
            id: self.id@,
            name: self.name@,
            module: self.module@,
            args: self.args.deep_view(),
            when: self.when.deep_view(),
        }
    }
}

impl Clone for ParsedHandler {
    fn clone(&self) -> (r: Self)
        ensures
            r.deep_view() == self.deep_view(),
    {
        ParsedHandler {
            id: self.id.clone(),
            name: self.name.clone(),
            module: self.module.clone(),
            args: clone_entries(&self.args),
            when: clone_optional_string(&self.when),
        }
    }
}

#[derive(Debug)]
pub struct ParsedPlay {
    pub name: String,
    pub hosts: Vec<String>,
    pub tasks: Vec<ParsedTask>,
    pub handlers: Vec<ParsedHandler>,
    pub vars: Vec<KeyValue>,
}

pub struct ParsedPlayView {
    pub name: Seq<char>,
    pub hosts: Seq<Seq<char>>,
    pub tasks: Seq<ParsedTaskView>,
    pub handlers: Seq<ParsedHandlerView>,
    pub vars: Seq<KeyValueView>,
}

impl DeepView for ParsedPlay {
    type V = ParsedPlayView;

    open spec fn deep_view(&self) -> ParsedPlayView {
        ParsedPlayView {
            name: self.name@,
            hosts: self.hosts.deep_view(),
            tasks: self.tasks.deep_view(),
            handlers: self.handlers.deep_view(),
            vars: self.vars.deep_view(),
        }
    }
}

impl Clone for ParsedPlay {
    fn clone(&self) -> (r: Self)
        ensures
            r.deep_view() == self.deep_view(),
    {
        let tasks = self.tasks.clone();
        assert(tasks.deep_view() =~= self.tasks.deep_view());
        let handlers = self.handlers.clone();
        assert(handlers.deep_view() =~= self.handlers.deep_view());
        ParsedPlay {
            name: self.name.clone(),
            hosts: clone_strings(&self.hosts),
            tasks,
            handlers,
            vars: clone_entries(&self.vars),
        }
    }
}

#[derive(Debug)]
pub struct ParsedPlaybook {
    pub name: String,
    pub plays: Vec<ParsedPlay>,
    pub vars: Vec<KeyValue>,
}

pub struct ParsedPlaybookView {
    pub name: Seq<char>,
    pub plays: Seq<ParsedPlayView>,
    pub vars: Seq<KeyValueView>,
}

impl DeepView for ParsedPlaybook {
    type V = ParsedPlaybookView;

    open spec fn deep_view(&self) -> ParsedPlaybookView {
        ParsedPlaybookView {
            name: self.name@,
            plays: self.plays.deep_view(),
            vars: self.vars.deep_view(),
        }
    }
}

impl Clone for ParsedPlaybook {
    fn clone(&self) -> (r: Self)
        ensures
            r.deep_view() == self.deep_view(),
    {
        let plays = self.plays.clone();
        assert(plays.deep_view() =~= self.plays.deep_view());
        ParsedPlaybook { name: self.name.clone(), plays, vars: clone_entries(&self.vars) }
    }
}

/// The hosts that belong to a named group.
#[derive(Debug)]
pub struct HostGroup {
    pub name: String,
    pub hosts: Vec<String>,
}

pub struct HostGroupView {
    pub name: Seq<char>,
    pub hosts: Seq<Seq<char>>,
}

impl DeepView for HostGroup {
    type V = HostGroupView;

    open spec fn deep_view(&self) -> HostGroupView {
        HostGroupView { name: self.name@, hosts: self.hosts.deep_view() }
    }
}

impl Clone for HostGroup {
    fn clone(&self) -> (r: Self)
        ensures
            r.deep_view() == self.deep_view(),
    {
        HostGroup { name: self.name.clone(), hosts: clone_strings(&self.hosts) }
    }
}

/// What is known of one host before planning.
#[derive(Debug)]
pub struct HostFacts {
    pub host: String,
    pub facts: Vec<KeyValue>,
}

pub struct HostFactsView {
    pub host: Seq<char>,
    pub facts: Seq<KeyValueView>,
}

impl DeepView for HostFacts {
    type V = HostFactsView;

    open spec fn deep_view(&self) -> HostFactsView {
        HostFactsView { host: self.host@, facts: self.facts.deep_view() }
    }
}

impl Clone for HostFacts {
    fn clone(&self) -> (r: Self)
        ensures
            r.deep_view() == self.deep_view(),
    {
        HostFacts { host: self.host.clone(), facts: clone_entries(&self.facts) }
    }
}

/// The fleet: its hosts, their groups, its variables and the facts known of
/// its hosts. Of two fact entries for one host the first counts.
#[derive(Debug)]
pub struct ParsedInventory {
    pub hosts: Vec<String>,
    pub groups: Vec<HostGroup>,
    pub vars: Vec<KeyValue>,
    pub host_facts: Vec<HostFacts>,
}

pub struct ParsedInventoryView {
    pub hosts: Seq<Seq<char>>,
    pub groups: Seq<HostGroupView>,
    pub vars: Seq<KeyValueView>,
    pub host_facts: Seq<HostFactsView>,
}

impl DeepView for ParsedInventory {
    type V = ParsedInventoryView;

    open spec fn deep_view(&self) -> ParsedInventoryView {
        ParsedInventoryView {
            hosts: self.hosts.deep_view(),
            groups: self.groups.deep_view(),
            vars: self.vars.deep_view(),
            host_facts: self.host_facts.deep_view(),
        }
    }
}

impl Clone for ParsedInventory {
    fn clone(&self) -> (r: Self)
        ensures
            r.deep_view() == self.deep_view(),
    {
        let groups = self.groups.clone();
        assert(groups.deep_view() =~= self.groups.deep_view());
        let host_facts = self.host_facts.clone();
        assert(host_facts.deep_view() =~= self.host_facts.deep_view());
        ParsedInventory {
            hosts: clone_strings(&self.hosts),
            groups,
            vars: clone_entries(&self.vars),
            host_facts,
        }
    }
}

} // verus!
