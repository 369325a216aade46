//! The commands of plugins: loading the plugins that define them, the command
//! line that lists them, and the calls.

use crate::agents::{config_text, defaulted, fields_of, with_defaults};
use crate::app::{says, App};
use crate::collections::StrSet;
use crate::db::settings_to_config;
use crate::manager::Installed;
use crate::plugin_ui::{step_within, stepped};
use crate::text::{
    concat, contains, law_order_is_total, law_order_is_transitive, less, lowercase, opt, opt_clone,
    str_contains, str_less, texts, to_lower, trim, trimmed,
};
use crate::types::{empty_input, Mode, PluginCommand};
use vstd::prelude::*;

verus! {

// ---------- loading ----------

/// An active plugin that is to be loaded.
#[derive(Debug)]
pub struct LoadStep {
    pub name: String,
    pub dir: String,
    /// The command of its service, which is to be registered.
    pub service_cmd: Option<String>,
    /// Whether it has a Lua state to be loaded, with this configuration.
    pub is_lua: bool,
    pub config: Option<String>,
}

/// What a step says.
pub struct StepView {
    pub name: Seq<char>,
    pub dir: Seq<char>,
    pub service_cmd: Option<Seq<char>>,
    pub is_lua: bool,
    pub config: Option<Seq<char>>,
}

impl View for LoadStep {
    type V = StepView;

    open spec fn view(&self) -> StepView {
        StepView {
            name: self.name@,
            dir: self.dir@,
            service_cmd: opt(self.service_cmd),
            is_lua: self.is_lua,
            config: opt(self.config),
        }
    }
}

/// What some steps say.
pub open spec fn step_views(s: Seq<LoadStep>) -> Seq<StepView> {
    s.map_values(|x: LoadStep| x@)
}

/// The steps that load the active plugins whose manifest can be read. The
/// configuration of a plugin holds its saved settings and the defaults of its
/// form for those never saved.
pub open spec fn load_steps(s: Seq<Installed>) -> Seq<StepView>
    decreases s.len(),
{
    if s.len() == 0 {
        Seq::empty()
    } else {
        let p = s.last();
        let before = load_steps(s.drop_last());
        if p.row.active && p.manifest is Some {
            let m = p.manifest->0;
            before.push(
                StepView {
                    name: m.name@,
                    dir: p.row.dir@,
                    service_cmd: opt(m.service_cmd),
                    is_lua: m.is_lua,
                    config: config_text(defaulted(p.settings@, fields_of(m.ui))),
                },
            )
        } else {
            before
        }
    }
}

/// The steps that load the active plugins.
pub fn load_plan(installed: &Vec<Installed>) -> (r: Vec<LoadStep>)
    ensures
        step_views(r@) == load_steps(installed@),
{
    let mut out: Vec<LoadStep> = Vec::new();
    assert(step_views(out@) =~= Seq::empty());
    assert(installed@.take(0) =~= Seq::empty());
    for i in 0..installed.len()
        invariant
            step_views(out@) == load_steps(installed@.take(i as int)),
    {
        assert(installed@.take(i + 1).drop_last() =~= installed@.take(i as int));
        let p = &installed[i];
        if p.row.active {
            if let Some(m) = &p.manifest {
                let values = with_defaults(&p.settings, &m.ui);
                let ghost before = step_views(out@);
                let step = LoadStep {
                    name: m.name.clone(),
                    dir: p.row.dir.clone(),
                    service_cmd: opt_clone(&m.service_cmd),
                    is_lua: m.is_lua,
                    config: settings_to_config(&values),
                };
                let ghost v = step@;
                out.push(step);
                assert(step_views(out@) =~= before.push(v));
            }
        }
    }
    assert(installed@.take(installed@.len() as int) =~= installed@);
    out
}

/// A plugin whose Lua state was loaded, with its commands, or could not be.
#[derive(Debug)]
pub struct Loaded {
    pub name: String,
    pub outcome: Result<Vec<CommandInfo>, String>,
}

/// A command as a plugin states it.
#[derive(Debug)]
pub struct CommandInfo {
    pub name: String,
    pub desc: String,
}

/// What a command is.
pub struct CommandView {
    pub plugin_name: Seq<char>,
    pub name: Seq<char>,
    pub desc: Seq<char>,
}

impl View for PluginCommand {
    type V = CommandView;

    open spec fn view(&self) -> CommandView {
        CommandView { plugin_name: self.plugin_name@, name: self.name@, desc: self.desc@ }
    }
}

/// What some commands are.
pub open spec fn command_views(s: Seq<PluginCommand>) -> Seq<CommandView> {
    s.map_values(|c: PluginCommand| c@)
}

/// The commands of one plugin.
pub open spec fn commands_of(plugin: Seq<char>, s: Seq<CommandInfo>) -> Seq<CommandView> {
    s.map_values(
        |c: CommandInfo| CommandView { plugin_name: plugin, name: c.name@, desc: c.desc@ },
    )
}

/// The commands of the loaded plugins, in the order of loading.
pub open spec fn all_commands(s: Seq<Loaded>) -> Seq<CommandView>
    decreases s.len(),
{
    if s.len() == 0 {
        Seq::empty()
    } else {
        match s.last().outcome {
            Ok(list) => all_commands(s.drop_last()) + commands_of(s.last().name@, list@),
            Err(_) => all_commands(s.drop_last()),
        }
    }
}

/// The names of the plugins that were loaded.
pub open spec fn loaded_names(s: Seq<Loaded>) -> Set<Seq<char>>
    decreases s.len(),
{
    if s.len() == 0 {
        Set::empty()
    } else if s.last().outcome is Ok {
        loaded_names(s.drop_last()).insert(s.last().name@)
    } else {
        loaded_names(s.drop_last())
    }
}

/// What went wrong with the plugins that could not be loaded.
pub open spec fn load_problems(s: Seq<Loaded>) -> Seq<Seq<char>>
    decreases s.len(),
{
    if s.len() == 0 {
        Seq::empty()
    } else {
        match s.last().outcome {
            Ok(_) => load_problems(s.drop_last()),
            Err(e) => load_problems(s.drop_last()).push(s.last().name@ + ": "@ + e@),
        }
    }
}

// ---------- order ----------

/// A command put into a list ordered by name, behind all with no later name.
pub open spec fn insert_command(s: Seq<CommandView>, c: CommandView) -> Seq<CommandView>
    decreases s.len(),
{
    if s.len() == 0 || !str_less(c.name, s.last().name) {
        s.push(c)
    } else {
        insert_command(s.drop_last(), c).push(s.last())
    }
}

/// Commands ordered by name; those of one name keep the order they came in.
pub open spec fn by_name(s: Seq<CommandView>) -> Seq<CommandView>
    decreases s.len(),
{
    if s.len() == 0 {
        s
    } else {
        insert_command(by_name(s.drop_last()), s.last())
    }
}

/// Whether no command has an earlier name than one before it.
pub open spec fn names_in_order(s: Seq<CommandView>) -> bool {
    forall|i: int, j: int|
        0 <= i < j < s.len() ==> !str_less((#[trigger] s[j]).name, (#[trigger] s[i]).name)
}

proof fn lemma_insert_at(s: Seq<CommandView>, c: CommandView, i: int)
    requires
        0 <= i <= s.len(),
        forall|k: int| i <= k < s.len() ==> str_less(c.name, (#[trigger] s[k]).name),
        i > 0 ==> !str_less(c.name, s[i - 1].name),
    ensures
        insert_command(s, c) == s.insert(i, c),
    decreases s.len(),
{
    if i < s.len() {
        lemma_insert_at(s.drop_last(), c, i);
        assert(s.drop_last().insert(i, c).push(s.last()) =~= s.insert(i, c));
    } else {
        assert(s.push(c) =~= s.insert(i, c));
    }
}

proof fn lemma_insert_command(s: Seq<CommandView>, c: CommandView)
    requires
        names_in_order(s),
    ensures
        names_in_order(insert_command(s, c)),
        insert_command(s, c).to_multiset() == s.to_multiset().insert(c),
    decreases s.len(),
{
    broadcast use vstd::seq_lib::group_to_multiset_ensures;

    if s.len() == 0 || !str_less(c.name, s.last().name) {
        let r = s.push(c);
        assert forall|i: int, j: int| 0 <= i < j < r.len() implies !str_less(
            (#[trigger] r[j]).name,
            (#[trigger] r[i]).name,
        ) by {
            if j == s.len() && str_less(c.name, s[i].name) {
                let l = s[s.len() - 1];
                if i < s.len() - 1 {
                    assert(!str_less(l.name, s[i].name));
                    law_order_is_total(s[i].name, l.name);
                    if str_less(s[i].name, l.name) {
                        law_order_is_transitive(c.name, s[i].name, l.name);
                    }
                }
            }
        }
    } else {
        let t = s.drop_last();
        let l = s.last();
        assert(names_in_order(t)) by {
            assert forall|i: int, j: int| 0 <= i < j < t.len() implies !str_less(
                (#[trigger] t[j]).name,
                (#[trigger] t[i]).name,
            ) by {
                assert(!str_less(s[j].name, s[i].name));
            }
        }
        lemma_insert_command(t, c);
        let u = insert_command(t, c);
        let r = u.push(l);
        assert(s =~= t.push(l));
        assert forall|i: int, j: int| 0 <= i < j < r.len() implies !str_less(
            (#[trigger] r[j]).name,
            (#[trigger] r[i]).name,
        ) by {
            if j == u.len() {
                assert(u.to_multiset().count(u[i]) > 0) by {
                    assert(u.contains(u[i]));
                }
                if u[i] != c {
                    assert(t.to_multiset().count(u[i]) > 0);
                    assert(t.contains(u[i]));
                    let k = choose|k: int| 0 <= k < t.len() && t[k] == u[i];
                    assert(!str_less(s[s.len() - 1].name, s[k].name));
                } else {
                    law_order_is_total(c.name, l.name);
                }
            } else {
                assert(!str_less(u[j].name, u[i].name));
            }
        }
        assert(r.to_multiset() =~= s.to_multiset().insert(c));
    }
}

/// Ordering loses and invents no command, and leaves none before one with an
/// earlier name.
pub proof fn law_commands_are_ordered(s: Seq<CommandView>)
    ensures
        names_in_order(by_name(s)),
        by_name(s).to_multiset() == s.to_multiset(),
    decreases s.len(),
{
    broadcast use vstd::seq_lib::group_to_multiset_ensures;

    if s.len() > 0 {
        law_commands_are_ordered(s.drop_last());
        lemma_insert_command(by_name(s.drop_last()), s.last());
        assert(s =~= s.drop_last().push(s.last()));
    }
}

fn insert_in_order(s: &mut Vec<PluginCommand>, c: PluginCommand)
    ensures
        command_views(final(s)@) == insert_command(command_views(old(s)@), c@),
{
    let mut i: usize = s.len();
    while i > 0 && less(c.name.as_str(), s[i - 1].name.as_str())
        invariant
            i <= s@.len(),
            s@ == old(s)@,
            forall|k: int|
                i <= k < s@.len() ==> str_less(c@.name, (#[trigger] command_views(s@)[k]).name),
        decreases i,
    {
        i = i - 1;
        assert(command_views(s@)[i as int].name == s@[i as int].name@);
    }
    proof {
        if i > 0 {
            assert(command_views(s@)[i - 1].name == s@[i - 1].name@);
        }
        lemma_insert_at(command_views(s@), c@, i as int);
    }
    let ghost v = c@;
    let ghost before = command_views(s@);
    s.insert(i, c);
    assert(command_views(s@) =~= before.insert(i as int, v));
}

fn sort_commands(s: &Vec<PluginCommand>) -> (r: Vec<PluginCommand>)
    ensures
        command_views(r@) == by_name(command_views(s@)),
{
    let mut out: Vec<PluginCommand> = Vec::new();
    let ghost all = command_views(s@);
    assert(command_views(out@) =~= Seq::empty());
    for i in 0..s.len()
        invariant
            all == command_views(s@),
            command_views(out@) =~= by_name(all.take(i as int)),
    {
        assert(all.take(i + 1).drop_last() =~= all.take(i as int));
        assert(all.take(i + 1).last() == s@[i as int]@);
        insert_in_order(&mut out, s[i].clone());
    }
    assert(all.take(all.len() as int) =~= all);
    out
}

// ---------- matching ----------

/// Whether a command matches what was entered, in lower case: by its name or by
/// its description, and always where nothing was entered.
pub open spec fn matches_query(c: PluginCommand, q: Seq<char>) -> bool {
    q.len() == 0 || contains(lowercase(c.name@), q) || contains(lowercase(c.desc@), q)
}

/// The commands that match what was entered, in their order.
pub open spec fn matching(s: Seq<PluginCommand>, q: Seq<char>) -> Seq<PluginCommand>
    decreases s.len(),
{
    if s.len() == 0 {
        s
    } else if matches_query(s.last(), q) {
        matching(s.drop_last(), q).push(s.last())
    } else {
        matching(s.drop_last(), q)
    }
}

/// Where nothing is entered, every command matches.
pub proof fn law_nothing_entered_lists_all(s: Seq<PluginCommand>)
    ensures
        matching(s, Seq::empty()) == s,
    decreases s.len(),
{
    if s.len() > 0 {
        law_nothing_entered_lists_all(s.drop_last());
        assert(s =~= s.drop_last().push(s.last()));
    }
}

/// The commands that match an entered text, in lower case.
pub fn matches_of(commands: &Vec<PluginCommand>, q: &str) -> (r: Vec<PluginCommand>)
    ensures
        r@ == matching(commands@, q@),
{
    let mut out: Vec<PluginCommand> = Vec::new();
    assert(commands@.take(0) =~= Seq::empty());
    for i in 0..commands.len()
        invariant
            out@ == matching(commands@.take(i as int), q@),
    {
        assert(commands@.take(i + 1).drop_last() =~= commands@.take(i as int));
        let c = &commands[i];
        if q.is_empty() || str_contains(to_lower(c.name.as_str()).as_str(), q) || str_contains(
            to_lower(c.desc.as_str()).as_str(),
            q,
        ) {
            out.push(c.clone());
        }
    }
    assert(commands@.take(commands@.len() as int) =~= commands@);
    out
}

/// What came from the channel of a call.
#[derive(Debug)]
pub enum CommandPoll {
    /// The call ended with a message, without one, or with an error.
    Done { plugin_name: String, result: Result<Option<String>, String> },
    /// Nothing has come yet.
    Empty,
    /// The worker is gone without an end.
    Gone,
}

impl App {
    /// Takes in the plugins as they were loaded: gives what went wrong with those
    /// that were not.
    pub fn load_plugin_states(&mut self, loaded: &Vec<Loaded>) -> (r: Vec<String>)
        requires
            old(self).wf(),
        ensures
            final(self).wf(),
            *final(self) == (App {
                plugin_states: final(self).plugin_states,
                plugin_commands: final(self).plugin_commands,
                ..*old(self)
            }),
            final(self).plugin_states@ == loaded_names(loaded@),
            command_views(final(self).plugin_commands@) == by_name(all_commands(loaded@)),
            texts(r@) == load_problems(loaded@),
    {
        let mut states = StrSet::new();
        let mut commands: Vec<PluginCommand> = Vec::new();
        let mut problems: Vec<String> = Vec::new();
        assert(command_views(commands@) =~= Seq::empty());
        assert(texts(problems@) =~= Seq::empty());
        assert(loaded@.take(0) =~= Seq::empty());
        for i in 0..loaded.len()
            invariant
                states@ == loaded_names(loaded@.take(i as int)),
                command_views(commands@) == all_commands(loaded@.take(i as int)),
                texts(problems@) == load_problems(loaded@.take(i as int)),
        {
            assert(loaded@.take(i + 1).drop_last() =~= loaded@.take(i as int));
            let l = &loaded[i];
            match &l.outcome {
                Ok(list) => {
                    add_commands(&mut commands, l.name.as_str(), list);
                    states.insert(l.name.clone());
                },
                Err(e) => {
                    let ghost before = texts(problems@);
                    let text = concat(concat(l.name.as_str(), ": ").as_str(), e.as_str());
                    let ghost t = text@;
                    problems.push(text);
                    assert(texts(problems@) =~= before.push(t));
                },
            }
        }
        assert(loaded@.take(loaded@.len() as int) =~= loaded@);
        self.plugin_states = states;
        self.plugin_commands = sort_commands(&commands);
        problems
    }

    /// Opens the command line, after the plugins were loaded.
    pub fn open_command_mode(&mut self, problems: &Vec<String>)
        requires
            old(self).wf(),
        ensures
            final(self).wf(),
            final(self).input@ == empty_input(),
            *final(self) == (App {
                input: final(self).input,
                command_selected: 0,
                message: final(self).message,
                mode: Mode::Command,
                ..*old(self)
            }),
            if problems@.len() > 0 {
                says(final(self).message, "✖ "@ + problems@[0]@)
            } else if old(self).plugin_commands@.len() == 0 {
                says(
                    final(self).message,
                    "no plugin commands (need an active runtime=\"lua\" plugin defining plugin.commands)"@,
                )
            } else {
                final(self).message == old(self).message
            },
    {
        self.input.clear();
        self.command_selected = 0;
        if problems.len() > 0 {
            let text = concat("✖ ", problems[0].as_str());
            self.set_message(text.as_str());
        } else if self.plugin_commands.len() == 0 {
            self.set_message(
                "no plugin commands (need an active runtime=\"lua\" plugin defining plugin.commands)",
            );
        }
        self.mode = Mode::Command;
    }

    /// The commands that match what is entered.
    pub open spec fn command_list(&self) -> Seq<PluginCommand> {
        matching(self.plugin_commands@, lowercase(trimmed(self.input.text@)))
    }

    /// The commands that match what is entered.
    pub fn command_matches(&self) -> (r: Vec<PluginCommand>)
        ensures
            r@ == self.command_list(),
    {
        let q = to_lower(trim(self.input.text.as_str()).as_str());
        matches_of(&self.plugin_commands, q.as_str())
    }

    /// Moves the selection of the command line, within the commands that match.
    pub fn move_command_selection(&mut self, delta: i32)
        requires
            old(self).wf(),
        ensures
            final(self).wf(),
            *final(self) == (App { command_selected: final(self).command_selected, ..*old(self) }),
            final(self).command_selected == (if old(self).command_list().len() == 0 {
                0
            } else {
                stepped(
                    old(self).command_selected as int,
                    delta as int,
                    old(self).command_list().len() as int,
                )
            }),
    {
        let len: usize = self.command_matches().len();
        if len == 0 {
            self.command_selected = 0;
            return;
        }
        self.command_selected = step_within(self.command_selected, delta, len);
    }

    /// Keeps the selection of the command line within the commands that match.
    pub fn clamp_command_selection(&mut self)
        requires
            old(self).wf(),
        ensures
            final(self).wf(),
            *final(self) == (App { command_selected: final(self).command_selected, ..*old(self) }),
            final(self).command_selected == crate::goals::within(
                old(self).command_selected as int,
                old(self).command_list().len() as int,
            ),
    {
        let len: usize = self.command_matches().len();
        if len == 0 {
            self.command_selected = 0;
        } else if self.command_selected >= len {
            self.command_selected = len - 1;
        }
    }

    /// Runs a command: says whether its plugin is to be called.
    pub fn execute_plugin_command(&mut self, cmd: &PluginCommand) -> (r: bool)
        requires
            old(self).wf(),
        ensures
            final(self).wf(),
            final(self).called(*old(self), cmd.plugin_name@, r),
    {
        self.spawn_plugin_call(cmd.plugin_name.as_str())
    }

    /// What calling a plugin does: at most one call runs at a time, on a plugin that
    /// is loaded; while it runs, the plugin is with the worker, and the goal list
    /// is shown so that dialogs can open.
    pub open spec fn called(&self, before: App, plugin: Seq<char>, started: bool) -> bool {
        if before.command_running {
            &&& !started
            &&& *self == (App { message: self.message, ..before })
            &&& says(self.message, "a command is already running"@)
        } else if !before.plugin_states@.contains(plugin) {
            &&& !started
            &&& *self == (App { message: self.message, ..before })
            &&& says(self.message, "plugin not loaded"@)
        } else {
            &&& started
            &&& *self == (App {
                plugin_states: self.plugin_states,
                command_running: true,
                mode: Mode::Normal,
                input: self.input,
                ..before
            })
            &&& self.plugin_states@ == before.plugin_states@.remove(plugin)
            &&& self.input@ == empty_input()
        }
    }

    /// Begins a call of a plugin: says whether the worker is to be started.
    pub fn spawn_plugin_call(&mut self, plugin_name: &str) -> (r: bool)
        requires
            old(self).wf(),
        ensures
            final(self).wf(),
            final(self).called(*old(self), plugin_name@, r),
    {
        if self.command_running {
            self.set_message("a command is already running");
            return false;
        }
        if !self.plugin_states.contains(plugin_name) {
            self.set_message("plugin not loaded");
            return false;
        }
        self.plugin_states.remove(plugin_name);
        self.command_running = true;
        self.cancel();
        true
    }

    /// Takes in what came from a call: gives the error that is to be logged.
    pub fn poll_command_results(&mut self, poll: CommandPoll) -> (r: Option<String>)
        requires
            old(self).wf(),
        ensures
            final(self).wf(),
            match poll {
                CommandPoll::Done { plugin_name, result } => *final(self) == (App {
                    plugin_states: final(self).plugin_states,
                    command_running: false,
                    message: final(self).message,
                    ..*old(self)
                }) && final(self).plugin_states@ == old(self).plugin_states@.insert(plugin_name@)
                    && (match result {
                    Ok(Some(msg)) => says(final(self).message, msg@) && r is None,
                    Ok(None) => says(final(self).message, "done"@) && r is None,
                    Err(e) => says(final(self).message, "✖ "@ + e@) && opt(r) == Some(
                        plugin_name@ + ": "@ + e@,
                    ),
                }),
                CommandPoll::Empty => *final(self) == *old(self) && r is None,
                CommandPoll::Gone => *final(self) == (App { command_running: false, ..*old(self) })
                    && r is None,
            },
    {
        match poll {
            CommandPoll::Done { plugin_name, result } => {
                self.command_running = false;
                self.plugin_states.insert(plugin_name.clone());
                match result {
                    Ok(Some(msg)) => {
                        self.set_message(msg.as_str());
                        None
                    },
                    Ok(None) => {
                        self.set_message("done");
                        None
                    },
                    Err(e) => {
                        let shown = concat("✖ ", e.as_str());
                        self.set_message(shown.as_str());
                        Some(concat(concat(plugin_name.as_str(), ": ").as_str(), e.as_str()))
                    },
                }
            },
            CommandPoll::Empty => None,
            CommandPoll::Gone => {
                self.command_running = false;
                None
            },
        }
    }
}

/// A call that ended leaves its plugin loaded again, as before the call.
pub proof fn law_calls_give_the_plugin_back(states: Set<Seq<char>>, plugin: Seq<char>)
    requires
        states.contains(plugin),
    ensures
        states.remove(plugin).insert(plugin) == states,
{
    assert(states.remove(plugin).insert(plugin) =~= states);
}

fn add_commands(out: &mut Vec<PluginCommand>, plugin: &str, list: &Vec<CommandInfo>)
    ensures
        command_views(final(out)@) == command_views(old(out)@) + commands_of(plugin@, list@),
{
    let ghost start = command_views(out@);
    let n: usize = list.len();
    let mut i: usize = 0;
    while i < n
        invariant
            i <= n == list@.len(),
            command_views(out@) =~= start + commands_of(plugin@, list@).take(i as int),
        decreases n - i,
    {
        let ghost before = command_views(out@);
        let c = PluginCommand {
            plugin_name: plugin.to_owned(),
            name: list[i].name.clone(),
            desc: list[i].desc.clone(),
        };
        let ghost v = c@;
        out.push(c);
        assert(command_views(out@) =~= before.push(v));
        assert(v == commands_of(plugin@, list@)[i as int]);
        i = i + 1;
    }
}

/// Whether a step loads an installed plugin: an active one, from its folder and with what
/// its manifest says.
pub open spec fn is_step_of(p: Installed, t: StepView) -> bool {
    &&& p.row.active
    &&& p.manifest is Some
    &&& t.name == p.manifest->0.name@
    &&& t.dir == p.row.dir@
    &&& t.service_cmd == opt(p.manifest->0.service_cmd)
    &&& t.is_lua == p.manifest->0.is_lua
}

/// The plugins that are loaded are the active ones whose manifest can be read: no step is
/// for another one, and each of them has a step.
pub proof fn law_active_plugins_are_loaded(s: Seq<Installed>, k: int)
    ensures
        forall|j: int|
            0 <= j < load_steps(s).len() ==> exists|i: int|
                0 <= i < s.len() && is_step_of(#[trigger] s[i], #[trigger] load_steps(s)[j]),
        0 <= k < s.len() && s[k].row.active && s[k].manifest is Some ==> exists|j: int|
            0 <= j < load_steps(s).len() && is_step_of(s[k], #[trigger] load_steps(s)[j]),
    decreases s.len(),
{
    if s.len() > 0 {
        let t = s.drop_last();
        law_active_plugins_are_loaded(t, k);
        let old = load_steps(t);
        let all = load_steps(s);
        assert forall|j: int| 0 <= j < all.len() implies exists|i: int|
            0 <= i < s.len() && is_step_of(#[trigger] s[i], #[trigger] all[j]) by {
            if j < old.len() {
                assert(all[j] == old[j]);
                let i = choose|i: int| 0 <= i < t.len() && is_step_of(#[trigger] t[i], old[j]);
                assert(is_step_of(s[i], all[j]));
            } else {
                assert(is_step_of(s[s.len() - 1], all[j]));
            }
        }
        if 0 <= k < s.len() && s[k].row.active && s[k].manifest is Some {
            if k < t.len() {
                assert(t[k] == s[k]);
                let j = choose|j: int| 0 <= j < old.len() && is_step_of(t[k], #[trigger] old[j]);
                assert(all[j] == old[j]);
            } else {
                assert(is_step_of(s[k], all[all.len() - 1]));
            }
        }
    }
}

/// Whether a command is the one at a place in the list of a plugin that was loaded.
pub open spec fn is_command_of(l: Loaded, j: int, c: CommandView) -> bool {
    match l.outcome {
        Ok(list) => 0 <= j < list@.len() && c.plugin_name == l.name@ && c.name == list@[j].name@
            && c.desc == list@[j].desc@,
        Err(_) => false,
    }
}

/// The commands are those of the plugins that were loaded, each under the name of its
/// plugin: there is no other, and none is missing.
pub proof fn law_commands_are_of_loaded_plugins(s: Seq<Loaded>, c: CommandView)
    ensures
        all_commands(s).contains(c) <==> exists|i: int, j: int|
            0 <= i < s.len() && #[trigger] is_command_of(s[i], j, c),
    decreases s.len(),
{
    if s.len() > 0 {
        let t = s.drop_last();
        law_commands_are_of_loaded_plugins(t, c);
        assert(forall|i: int| 0 <= i < t.len() ==> t[i] == #[trigger] s[i]);
        let old = all_commands(t);
        let all = all_commands(s);
        if all.contains(c) {
            let k = choose|k: int| 0 <= k < all.len() && all[k] == c;
            if k < old.len() {
                assert(old[k] == c);
                let (i, j) = choose|i: int, j: int|
                    0 <= i < t.len() && #[trigger] is_command_of(t[i], j, c);
                assert(is_command_of(s[i], j, c));
            } else {
                assert(is_command_of(s[s.len() - 1], k - old.len(), c));
            }
        }
        if exists|i: int, j: int| 0 <= i < s.len() && #[trigger] is_command_of(s[i], j, c) {
            let (i, j) = choose|i: int, j: int|
                0 <= i < s.len() && #[trigger] is_command_of(s[i], j, c);
            if i < t.len() {
                assert(is_command_of(t[i], j, c));
                let k = choose|k: int| 0 <= k < old.len() && old[k] == c;
                assert(all[k] == c);
            } else {
                assert(all[old.len() + j] == c);
            }
        }
    }
}

/// A name is that of a loaded plugin exactly where loading one with it succeeded.
pub proof fn law_loaded_plugins_succeeded(s: Seq<Loaded>, name: Seq<char>)
    ensures
        loaded_names(s).contains(name) <==> exists|i: int|
            0 <= i < s.len() && (#[trigger] s[i]).name@ == name && s[i].outcome is Ok,
    decreases s.len(),
{
    if s.len() > 0 {
        let t = s.drop_last();
        law_loaded_plugins_succeeded(t, name);
        assert(forall|i: int| 0 <= i < t.len() ==> t[i] == #[trigger] s[i]);
        if loaded_names(s).contains(name) {
            if loaded_names(t).contains(name) {
                let i = choose|i: int|
                    0 <= i < t.len() && (#[trigger] t[i]).name@ == name && t[i].outcome is Ok;
                assert(s[i].name@ == name);
            } else {
                assert(s[s.len() - 1].name@ == name);
            }
        }
        if exists|i: int| 0 <= i < s.len() && (#[trigger] s[i]).name@ == name && s[i].outcome is Ok {
            let i = choose|i: int|
                0 <= i < s.len() && (#[trigger] s[i]).name@ == name && s[i].outcome is Ok;
            if i < t.len() {
                assert(t[i].name@ == name);
            }
        }
    }
}

/// Every plugin that could not be loaded is reported with its name and the reason, and
/// there is one report for each.
pub proof fn law_failures_are_reported(s: Seq<Loaded>, k: int)
    ensures
        0 <= k < s.len() && s[k].outcome is Err ==> load_problems(s).contains(
            s[k].name@ + ": "@ + s[k].outcome->Err_0@,
        ),
        load_problems(s).len() == s.filter(|l: Loaded| l.outcome is Err).len(),
    decreases s.len(),
{
    reveal(Seq::filter);
    if s.len() > 0 {
        let t = s.drop_last();
        law_failures_are_reported(t, k);
        if 0 <= k < t.len() && s[k].outcome is Err {
            let x = s[k].name@ + ": "@ + s[k].outcome->Err_0@;
            assert(t[k] == s[k]);
            let j = choose|j: int| 0 <= j < load_problems(t).len() && load_problems(t)[j] == x;
            assert(load_problems(s)[j] == x);
        } else if k == t.len() && s[k].outcome is Err {
            let all = load_problems(s);
            assert(all[all.len() - 1] == s[k].name@ + ": "@ + s[k].outcome->Err_0@);
        }
    }
}

proof fn lemma_insert_keeps_the_order(s: Seq<CommandView>, c: CommandView, name: Seq<char>)
    ensures
        insert_command(s, c).filter(|x: CommandView| x.name == name) == (if c.name == name {
            s.filter(|x: CommandView| x.name == name).push(c)
        } else {
            s.filter(|x: CommandView| x.name == name)
        }),
    decreases s.len(),
{
    reveal(Seq::filter);
    let keep = |x: CommandView| x.name == name;
    if s.len() == 0 || !str_less(c.name, s.last().name) {
        let r = s.push(c);
        assert(r.drop_last() =~= s);
        assert(r.last() == c);
    } else {
        law_order_is_total(c.name, c.name);
        lemma_insert_keeps_the_order(s.drop_last(), c, name);
        let a = insert_command(s.drop_last(), c);
        let r = a.push(s.last());
        assert(r.drop_last() =~= a);
        assert(r.last() == s.last());
    }
}

/// Commands of one name keep the order in which they came.
pub proof fn law_equal_names_keep_their_order(s: Seq<CommandView>, name: Seq<char>)
    ensures
        by_name(s).filter(|c: CommandView| c.name == name) == s.filter(
            |c: CommandView| c.name == name,
        ),
    decreases s.len(),
{
    reveal(Seq::filter);
    if s.len() > 0 {
        law_equal_names_keep_their_order(s.drop_last(), name);
        lemma_insert_keeps_the_order(by_name(s.drop_last()), s.last(), name);
    }
}

/// The list shows, in their order, the commands whose name or description holds what was
/// entered.
pub proof fn law_the_list_shows_what_matches(s: Seq<PluginCommand>, q: Seq<char>)
    ensures
        matching(s, q) == s.filter(
            |c: PluginCommand|
                q.len() == 0 || contains(lowercase(c.name@), q) || contains(lowercase(c.desc@), q),
        ),
    decreases s.len(),
{
    reveal(Seq::filter);
    if s.len() > 0 {
        law_the_list_shows_what_matches(s.drop_last(), q);
    }
}

/// A call starts exactly where none is running and the plugin is loaded. Once it has
/// started, the plugin is away and the others stay; otherwise the plugins stay as they are
/// and a message says why.
pub proof fn law_one_call_runs_at_a_time(after: App, before: App, plugin: Seq<char>, started: bool)
    requires
        after.called(before, plugin, started),
    ensures
        started <==> !before.command_running && before.plugin_states@.contains(plugin),
        started ==> after.command_running && forall|p: Seq<char>| #[trigger]
            after.plugin_states@.contains(p) <==> p != plugin && before.plugin_states@.contains(p),
        !started ==> after.plugin_states == before.plugin_states && after.command_running
            == before.command_running && after.mode == before.mode && after.message is Some,
        after.goals == before.goals && after.plugin_commands == before.plugin_commands,
{
}

} // verus!
