//! The plugin manager: installed plugins, their services, searches, installs and
//! updates.

use crate::agents::{find_plugin, is_runner, plugin_with, push_log, runs_goals};
use crate::app::{says, App};
use crate::collections::StrMap;
use crate::db::{
    clear_theme_selection, explicit_theme_stmt, plugin_active_stmt, selected_theme_stmt,
    set_active_theme, set_plugin_active, system_theme_stmt, PluginRow, Statement, Stmt, Val,
};
use crate::goals::within;
use crate::plugins::{plural, plural_of, TaskEvent, TaskState, ThemeFile};
use crate::style::statement_views;
use crate::text::{concat, decimal, join, joined, number, opt, str_contains, texts, trim, trimmed};
use crate::theme::Theme;
use crate::types::{empty_input, Manifest, Mode, PluginPane};
use vstd::prelude::*;

verus! {

/// An installed plugin: its row, its manifest where it can be read, the settings
/// stored for it, and whether it owns a configurator.
#[derive(Debug)]
pub struct Installed {
    pub row: PluginRow,
    pub manifest: Option<Manifest>,
    pub settings: StrMap,
    pub configures: bool,
}

/// The rows of some installed plugins.
pub open spec fn rows_installed(s: Seq<Installed>) -> Seq<PluginRow> {
    s.map_values(|p: Installed| p.row)
}

/// The rows of some installed plugins.
pub fn plugin_rows(s: &Vec<Installed>) -> (r: Vec<PluginRow>)
    ensures
        r@ == rows_installed(s@),
{
    let mut out: Vec<PluginRow> = Vec::new();
    for i in 0..s.len()
        invariant
            out@ =~= rows_installed(s@.take(i as int)),
    {
        out.push(s[i].row.clone());
        assert(rows_installed(s@.take(i + 1)) =~= rows_installed(s@.take(i as int)).push(
            s@[i as int].row,
        ));
    }
    assert(s@.take(s@.len() as int) =~= s@);
    out
}

// ---------- the agent url ----------

/// The address of the agent backend where none is configured.
pub const AGENT_URL: &'static str = "http://localhost:8081";

/// Whether some installed plugin can run goals.
pub open spec fn any_runner(s: Seq<Installed>) -> bool {
    exists|i: int| 0 <= i < s.len() && runs_goals(#[trigger] s[i])
}

/// The address that other clients read: the configured or the usual one where
/// some plugin can run goals, and none otherwise.
pub fn announce_agent_capability(installed: &Vec<Installed>, configured: &Option<String>) -> (r:
    String)
    ensures
        r@ == (if !any_runner(installed@) {
            Seq::empty()
        } else if opt(*configured) is Some && opt(*configured)->0.len() > 0 {
            opt(*configured)->0
        } else {
            AGENT_URL@
        }),
{
    let mut i: usize = 0;
    while i < installed.len()
        invariant
            i <= installed@.len(),
            forall|j: int| 0 <= j < i ==> !runs_goals(#[trigger] installed@[j]),
        decreases installed@.len() - i,
    {
        if is_runner(&installed[i]) {
            assert(runs_goals(installed@[i as int]));
            return match configured {
                Some(u) => {
                    if !u.as_str().is_empty() {
                        u.clone()
                    } else {
                        AGENT_URL.to_owned()
                    }
                },
                None => AGENT_URL.to_owned(),
            };
        }
        i = i + 1;
    }
    let none = String::new();
    assert(none@ =~= Seq::empty());
    none
}

/// Other clients are told of the agent backend exactly where some plugin can run
/// goals.
pub proof fn law_url_tells_of_runners(installed: Seq<Installed>, url: Seq<char>, configured: Option<Seq<char>>)
    requires
        url == (if !any_runner(installed) {
            Seq::empty()
        } else if configured is Some && configured->0.len() > 0 {
            configured->0
        } else {
            AGENT_URL@
        }),
    ensures
        url.len() > 0 <==> any_runner(installed),
{
    reveal_strlit("http://localhost:8081");
}

// ---------- tasks ----------

/// What came from the channel of a task.
#[derive(Debug)]
pub enum TaskPoll {
    Event(TaskEvent),
    /// Nothing has come yet.
    Empty,
    /// The task is gone without an end.
    Gone,
}

/// What is to be done about it.
#[derive(Debug)]
pub enum TaskStep {
    /// Take the next event.
    Next,
    /// Store these theme packs under a source and take the next event.
    Import { source: String, themes: Vec<ThemeFile> },
    /// Log this error. The task has ended.
    Failed { error: String },
    /// Register a plugin with its theme packs and read the installed plugins. The
    /// task has ended.
    Register { name: String, source: String, dir: String, themes: Vec<ThemeFile> },
    /// Load the plugins again and read the installed ones. The task has ended.
    Reloading { updated: usize, failed: Vec<String> },
    /// The task has ended.
    Done,
    /// Stop reading until the next turn.
    Wait,
}

/// The source of an installed plugin.
pub open spec fn source_of(s: Seq<PluginRow>, id: Seq<char>) -> Seq<char> {
    match find_plugin(s, id) {
        Some(p) => p.source@,
        None => "plugin"@,
    }
}

/// A number of theme packs in a message.
pub open spec fn theme_note(n: nat) -> Seq<char> {
    if n == 0 {
        Seq::empty()
    } else {
        " (+"@ + decimal(n) + " theme"@ + plural(n) + ")"@
    }
}

fn note_themes(n: usize) -> (r: String)
    ensures
        r@ == theme_note(n as nat),
{
    if n == 0 {
        let none = String::new();
        assert(none@ =~= Seq::empty());
        return none;
    }
    let a = concat(" (+", number(n as u64).as_str());
    let b = concat(a.as_str(), " theme");
    let c = concat(b.as_str(), plural_of(n));
    concat(c.as_str(), ")")
}

/// The log of a running task.
pub open spec fn task_log(s: TaskState) -> Option<Seq<Seq<char>>> {
    match s {
        TaskState::Working(log) => Some(texts(log@)),
        _ => None,
    }
}

/// What an update of all plugins ended with.
pub open spec fn update_message(
    updated: nat,
    failed: Seq<Seq<char>>,
    problems: Seq<Seq<char>>,
) -> Seq<char> {
    let base = if failed.len() == 0 {
        "updated "@ + decimal(updated) + " plugin"@ + plural(updated)
    } else {
        "updated "@ + decimal(updated) + ", failed: "@ + joined(failed, "; "@)
    };
    if problems.len() == 0 {
        base
    } else {
        base + " — ⚠ "@ + joined(problems, "; "@)
    }
}

fn update_text(updated: usize, failed: &Vec<String>, problems: &Vec<String>) -> (r: String)
    ensures
        r@ == update_message(updated as nat, texts(failed@), texts(problems@)),
{
    let a = concat("updated ", number(updated as u64).as_str());
    let base = if failed.len() == 0 {
        concat(concat(a.as_str(), " plugin").as_str(), plural_of(updated))
    } else {
        concat(concat(a.as_str(), ", failed: ").as_str(), join(failed, "; ").as_str())
    };
    if problems.len() == 0 {
        base
    } else {
        concat(concat(base.as_str(), " — ⚠ ").as_str(), join(problems, "; ").as_str())
    }
}

// ---------- services ----------

/// What toggling the service of a plugin leads to.
#[derive(Debug)]
pub enum ServiceStep {
    Nothing,
    Stop,
    Start,
}

/// The hint for a command that was not found.
pub open spec fn start_hint(cmd: Seq<char>, error: Seq<char>) -> Seq<char> {
    if crate::text::contains(error, "No such file or directory"@) {
        " — '"@ + cmd
            + "' not found in PATH. Install it (e.g. `curl -fsSL https://bun.sh/install | bash` or `brew install oven-sh/bun/bun`) and ensure TUI's PATH includes it"@
    } else {
        Seq::empty()
    }
}

fn hint(cmd: &str, error: &str) -> (r: String)
    ensures
        r@ == start_hint(cmd@, error@),
{
    if str_contains(error, "No such file or directory") {
        let a = concat(" — '", cmd);
        concat(
            a.as_str(),
            "' not found in PATH. Install it (e.g. `curl -fsSL https://bun.sh/install | bash` or `brew install oven-sh/bun/bun`) and ensure TUI's PATH includes it",
        )
    } else {
        let none = String::new();
        assert(none@ =~= Seq::empty());
        none
    }
}

/// A plugin whose activity is flipped.
#[derive(Debug)]
pub struct Toggle {
    pub id: String,
    pub dir: String,
    pub activating: bool,
}

/// What is written where a plugin is activated or deactivated: its row. A plugin with
/// themes also has its first theme selected, where it has one, or the theme of the system
/// restored.
pub open spec fn toggle_stmts(
    id: Seq<char>,
    activating: bool,
    is_theme: bool,
    first: Option<Seq<char>>,
) -> Seq<Stmt> {
    let row = seq![plugin_active_stmt(id, activating)];
    if !is_theme {
        row
    } else if !activating {
        row.push(system_theme_stmt())
    } else {
        match first {
            Some(theme) => row.push(explicit_theme_stmt()).push(selected_theme_stmt(theme)),
            None => row,
        }
    }
}

/// What is written where the activity of a plugin is flipped; `first` is its first theme
/// pack.
pub fn toggle_writes(t: &Toggle, is_theme: bool, first: &Option<ThemeFile>) -> (r: Vec<Statement>)
    ensures
        statement_views(r@) == toggle_stmts(
            t.id@,
            t.activating,
            is_theme,
            match *first {
                Some(theme) => Some(theme.id@),
                None => None,
            },
        ),
{
    let mut out: Vec<Statement> = Vec::new();
    out.push(set_plugin_active(t.id.as_str(), t.activating));
    if is_theme {
        if !t.activating {
            out.push(clear_theme_selection());
        } else if let Some(theme) = first {
            let (mode, selected) = set_active_theme(theme.id.as_str());
            out.push(mode);
            out.push(selected);
        }
    }
    assert(statement_views(out@) =~= toggle_stmts(
        t.id@,
        t.activating,
        is_theme,
        match *first {
            Some(theme) => Some(theme.id@),
            None => None,
        },
    ));
    out
}

/// Whether flipping the activity of a plugin changes the theme: exactly where more than
/// its row is written.
pub fn toggle_changes_theme(t: &Toggle, is_theme: bool, first: &Option<ThemeFile>) -> (r: bool)
    ensures
        r == (toggle_stmts(
            t.id@,
            t.activating,
            is_theme,
            match *first {
                Some(theme) => Some(theme.id@),
                None => None,
            },
        ).len() > 1),
{
    is_theme && (!t.activating || first.is_some())
}

/// The message after a plugin was activated or deactivated. A plugin with themes
/// has its first theme applied, or the builtin one restored.
pub open spec fn toggle_message(
    id: Seq<char>,
    activating: bool,
    is_theme: bool,
    theme: Option<Seq<char>>,
) -> Seq<char> {
    if is_theme && activating {
        match theme {
            Some(name) => id + " activated — theme '"@ + name + "' applied"@,
            None => id + " activated (no theme packs found)"@,
        }
    } else if is_theme {
        id + " deactivated — reverted to builtin dark"@
    } else if activating {
        id + " activated"@
    } else {
        id + " deactivated"@
    }
}

fn toggle_text(id: &str, activating: bool, is_theme: bool, theme: &Option<String>) -> (r: String)
    ensures
        r@ == toggle_message(id@, activating, is_theme, opt(*theme)),
{
    if is_theme && activating {
        match theme {
            Some(name) => {
                let a = concat(id, " activated — theme '");
                concat(concat(a.as_str(), name.as_str()).as_str(), "' applied")
            },
            None => concat(id, " activated (no theme packs found)"),
        }
    } else if is_theme {
        concat(id, " deactivated — reverted to builtin dark")
    } else if activating {
        concat(id, " activated")
    } else {
        concat(id, " deactivated")
    }
}

impl App {
    /// Opens the plugin manager with the installed plugins as they were read.
    pub fn open_plugin_manager(&mut self, plugins: Vec<PluginRow>)
        requires
            old(self).wf(),
        ensures
            final(self).wf(),
            final(self).input@ == empty_input(),
            *final(self) == (App {
                input: final(self).input,
                installed_plugins: plugins,
                plugin_selected: 0,
                mode: (Mode::PluginManager { pane: PluginPane::List }),
                ..*old(self)
            }),
    {
        self.input.clear();
        self.reload_installed_plugins(plugins);
        self.plugin_selected = 0;
        self.mode = Mode::PluginManager { pane: PluginPane::List };
    }

    /// Begins the input of a plugin to install.
    pub fn start_install_mode(&mut self)
        requires
            old(self).wf(),
        ensures
            final(self).wf(),
            final(self).input@ == empty_input(),
            *final(self) == (App {
                input: final(self).input,
                mode: (Mode::PluginManager { pane: PluginPane::Install }),
                ..*old(self)
            }),
    {
        self.input.clear();
        self.mode = Mode::PluginManager { pane: PluginPane::Install };
    }

    /// The selected plugin.
    pub fn selected_plugin(&self) -> (r: Option<&PluginRow>)
        ensures
            match r {
                Some(p) => self.plugin_selected < self.installed_plugins@.len() && *p
                    == self.installed_plugins@[self.plugin_selected as int],
                None => self.plugin_selected >= self.installed_plugins@.len(),
            },
    {
        if self.plugin_selected < self.installed_plugins.len() {
            Some(&self.installed_plugins[self.plugin_selected])
        } else {
            None
        }
    }

    /// Decides what toggling the service of a plugin leads to: it is stopped where
    /// it runs, and started where it does not.
    pub fn toggle_selected_service(&mut self, declared: bool, running: bool) -> (r: ServiceStep)
        requires
            old(self).wf(),
        ensures
            final(self).wf(),
            if old(self).plugin_selected >= old(self).installed_plugins@.len() {
                *final(self) == *old(self) && r is Nothing
            } else if !declared {
                *final(self) == (App { message: final(self).message, ..*old(self) }) && says(
                    final(self).message,
                    "this plugin declares no [service]"@,
                ) && r is Nothing
            } else {
                *final(self) == *old(self) && (if running {
                    r is Stop
                } else {
                    r is Start
                })
            },
    {
        if self.selected_plugin().is_none() {
            return ServiceStep::Nothing;
        }
        if !declared {
            self.set_message("this plugin declares no [service]");
            return ServiceStep::Nothing;
        }
        if running {
            ServiceStep::Stop
        } else {
            ServiceStep::Start
        }
    }

    /// After a service was stopped.
    pub fn service_stopped(&mut self, id: &str)
        requires
            old(self).wf(),
        ensures
            final(self).wf(),
            *final(self) == (App { message: final(self).message, ..*old(self) }),
            says(final(self).message, id@ + " service stopped"@),
    {
        let text = concat(id, " service stopped");
        self.set_message(text.as_str());
    }

    /// After a service was started.
    pub fn service_started(&mut self, id: &str)
        requires
            old(self).wf(),
        ensures
            final(self).wf(),
            *final(self) == (App { message: final(self).message, ..*old(self) }),
            says(final(self).message, id@ + " service started"@),
    {
        let text = concat(id, " service started");
        self.set_message(text.as_str());
    }

    /// After a service could not be started: gives what is to be logged. The short
    /// form of the error decides on the hint, the long form is shown.
    pub fn service_failed(&mut self, id: &str, cmd: &str, error: &str, long: &str) -> (r: String)
        requires
            old(self).wf(),
        ensures
            final(self).wf(),
            r@ == "✖ failed to start "@ + id@ + ": "@ + long@ + start_hint(cmd@, error@),
            *final(self) == (App { message: final(self).message, ..*old(self) }),
            says(final(self).message, r@),
    {
        let a = concat("✖ failed to start ", id);
        let b = concat(a.as_str(), ": ");
        let c = concat(b.as_str(), long);
        let text = concat(c.as_str(), hint(cmd, error).as_str());
        self.set_message(text.as_str());
        text
    }

    /// Begins an update of all plugins: gives their ids and directories, unless a
    /// task is running or nothing is installed.
    pub fn update_all_plugins(&mut self) -> (r: Option<Vec<(String, String)>>)
        requires
            old(self).wf(),
        ensures
            final(self).wf(),
            ({
                let n = old(self).installed_plugins@.len();
                if old(self).plugin_task {
                    *final(self) == (App { message: final(self).message, ..*old(self) }) && says(
                        final(self).message,
                        "a plugin task is already running"@,
                    ) && r is None
                } else if n == 0 {
                    *final(self) == (App { message: final(self).message, ..*old(self) }) && says(
                        final(self).message,
                        "nothing installed to update"@,
                    ) && r is None
                } else {
                    *final(self) == (App {
                        plugin_state: final(self).plugin_state,
                        plugin_task: true,
                        ..*old(self)
                    }) && task_log(final(self).plugin_state) == Some(
                        seq!["updating "@ + decimal(n) + " plugin"@ + plural(n) + "…"@],
                    ) && r is Some && r->0@ == old(self).installed_plugins@.map_values(
                        |p: PluginRow| (p.id, p.dir),
                    )
                }
            }),
    {
        if self.plugin_task {
            self.set_message("a plugin task is already running");
            return None;
        }
        let n: usize = self.installed_plugins.len();
        if n == 0 {
            self.set_message("nothing installed to update");
            return None;
        }
        let ghost f = |p: PluginRow| (p.id, p.dir);
        let mut all: Vec<(String, String)> = Vec::new();
        let mut i: usize = 0;
        while i < n
            invariant
                i <= n == self.installed_plugins@.len(),
                f == (|p: PluginRow| (p.id, p.dir)),
                all@ =~= self.installed_plugins@.take(i as int).map_values(f),
            decreases n - i,
        {
            let p = &self.installed_plugins[i];
            all.push((p.id.clone(), p.dir.clone()));
            i = i + 1;
        }
        assert(self.installed_plugins@.take(n as int) =~= self.installed_plugins@);
        let a = concat("updating ", number(n as u64).as_str());
        let b = concat(a.as_str(), " plugin");
        let c = concat(b.as_str(), plural_of(n));
        let line = concat(c.as_str(), "…");
        let mut log: Vec<String> = Vec::new();
        log.push(line);
        assert(texts(log@) =~= seq!["updating "@ + decimal(n as nat) + " plugin"@ + plural(n as nat) + "…"@]);
        self.plugin_state = TaskState::Working(log);
        self.plugin_task = true;
        Some(all)
    }

    /// The selected plugin and whether flipping its activity activates it.
    pub fn toggle_plugin_active(&self) -> (r: Option<Toggle>)
        ensures
            match r {
                Some(t) => self.plugin_selected < self.installed_plugins@.len() && ({
                    let p = self.installed_plugins@[self.plugin_selected as int];
                    t.id == p.id && t.dir == p.dir && t.activating == !p.active
                }),
                None => self.plugin_selected >= self.installed_plugins@.len(),
            },
    {
        match self.selected_plugin() {
            Some(p) => Some(
                Toggle { id: p.id.clone(), dir: p.dir.clone(), activating: !p.active },
            ),
            None => None,
        }
    }

    /// After the activity of a plugin was written. `themed` is the theme resolved
    /// anew, where one was applied or reverted.
    pub fn plugin_toggled(
        &mut self,
        t: &Toggle,
        is_theme: bool,
        first_theme: &Option<String>,
        themed: Option<Theme>,
        plugins: Vec<PluginRow>,
    )
        requires
            old(self).wf(),
        ensures
            final(self).wf(),
            *final(self) == (App {
                theme: match themed {
                    Some(theme) => theme,
                    None => old(self).theme,
                },
                message: final(self).message,
                installed_plugins: plugins,
                plugin_selected: final(self).plugin_selected,
                ..*old(self)
            }),
            final(self).plugin_selected == within(
                old(self).plugin_selected as int,
                plugins@.len() as int,
            ),
            says(
                final(self).message,
                toggle_message(t.id@, t.activating, is_theme, opt(*first_theme)),
            ),
    {
        if let Some(theme) = themed {
            self.theme = theme;
        }
        let text = toggle_text(t.id.as_str(), t.activating, is_theme, first_theme);
        self.set_message(text.as_str());
        self.reload_installed_plugins(plugins);
    }

    /// After the selected plugin was removed.
    pub fn uninstall_selected_plugin(&mut self, plugins: Vec<PluginRow>)
        requires
            old(self).wf(),
        ensures
            final(self).wf(),
            *final(self) == (App {
                message: final(self).message,
                installed_plugins: plugins,
                plugin_selected: final(self).plugin_selected,
                ..*old(self)
            }),
            final(self).plugin_selected == within(
                old(self).plugin_selected as int,
                plugins@.len() as int,
            ),
            says(final(self).message, "plugin uninstalled"@),
    {
        self.set_message("plugin uninstalled");
        self.reload_installed_plugins(plugins);
    }

    /// Begins a search or an install: gives what was entered, unless it is blank.
    pub fn start_plugin_search(&mut self) -> (r: Option<String>)
        requires
            old(self).wf(),
        ensures
            final(self).wf(),
            ({
                let q = trimmed(old(self).input.text@);
                if q.len() == 0 {
                    *final(self) == *old(self) && r is None
                } else {
                    *final(self) == (App {
                        plugin_state: final(self).plugin_state,
                        plugin_task: true,
                        ..*old(self)
                    }) && task_log(final(self).plugin_state) == Some(Seq::<Seq<char>>::empty()) && r
                        is Some && r->0@ == q
                }
            }),
    {
        let query = trim(self.input.text.as_str());
        if query.as_str().is_empty() {
            return None;
        }
        let log: Vec<String> = Vec::new();
        assert(texts(log@) =~= Seq::empty());
        self.plugin_state = TaskState::Working(log);
        self.plugin_task = true;
        Some(query)
    }

    /// Whether a line was logged to the task: behind the log of a running one, or
    /// as the first line.
    pub open spec fn logged_line(&self, before: App, line: Seq<char>) -> bool {
        &&& *self == (App { plugin_state: self.plugin_state, ..before })
        &&& task_log(self.plugin_state) == Some(
            match task_log(before.plugin_state) {
                Some(log) => crate::agents::logged(log, line),
                None => seq![line],
            },
        )
    }

    fn log_task_line(&mut self, line: String)
        requires
            old(self).wf(),
        ensures
            final(self).wf(),
            final(self).logged_line(*old(self), line@),
    {
        let mut state = TaskState::Idle;
        std::mem::swap(&mut state, &mut self.plugin_state);
        let ghost text = line@;
        self.plugin_state = match state {
            TaskState::Working(log) => {
                let mut log = log;
                push_log(&mut log, line);
                TaskState::Working(log)
            },
            _ => {
                let mut log: Vec<String> = Vec::new();
                log.push(line);
                assert(texts(log@) =~= seq![text]);
                TaskState::Working(log)
            },
        };
    }

    /// Whether an updated plugin was noted in the log of a running task.
    pub open spec fn noted_update(&self, before: App, name: Seq<char>, themes: nat) -> bool {
        &&& *self == (App { plugin_state: self.plugin_state, ..before })
        &&& match task_log(before.plugin_state) {
            Some(log) => task_log(self.plugin_state) == Some(
                log.push(name + " updated"@ + theme_note(themes)),
            ),
            None => self.plugin_state == before.plugin_state,
        }
    }

    fn note_update(&mut self, name: &str, themes: usize)
        requires
            old(self).wf(),
        ensures
            final(self).wf(),
            final(self).noted_update(*old(self), name@, themes as nat),
    {
        let a = concat(name, " updated");
        let line = concat(a.as_str(), note_themes(themes).as_str());
        let mut state = TaskState::Idle;
        std::mem::swap(&mut state, &mut self.plugin_state);
        let ghost text = line@;
        self.plugin_state = match state {
            TaskState::Working(log) => {
                let mut log = log;
                let ghost start = texts(log@);
                log.push(line);
                assert(texts(log@) =~= start.push(text));
                TaskState::Working(log)
            },
            s => s,
        };
    }

    /// Takes in what came from the task of the plugin manager.
    #[verifier::rlimit(60)]
    pub fn poll_plugin_search(&mut self, poll: TaskPoll) -> (r: TaskStep)
        requires
            old(self).wf(),
        ensures
            final(self).wf(),
            match poll {
                TaskPoll::Event(TaskEvent::Log(line)) => final(self).logged_line(*old(self), line@)
                    && r is Next,
                TaskPoll::Event(TaskEvent::Results(found)) => *final(self) == (App {
                    plugin_state: TaskState::Results(found),
                    plugin_task: false,
                    ..*old(self)
                }) && r is Done,
                TaskPoll::Event(TaskEvent::NotFound(q)) => *final(self) == (App {
                    plugin_state: TaskState::NotFound(q),
                    plugin_task: false,
                    ..*old(self)
                }) && r is Done,
                TaskPoll::Event(TaskEvent::Error(e)) => *final(self) == (App {
                    plugin_state: TaskState::Error(e),
                    plugin_task: false,
                    ..*old(self)
                }) && (r matches TaskStep::Failed { error } && error == e),
                TaskPoll::Event(TaskEvent::Updated { name, themes }) => final(self).noted_update(
                    *old(self),
                    name@,
                    themes@.len(),
                ) && (r matches TaskStep::Import { source, themes: packs } && source@ == source_of(
                    old(self).installed_plugins@,
                    name@,
                ) && packs == themes),
                TaskPoll::Event(TaskEvent::UpdateFinished { updated, failed }) => *final(self) == (
                App { plugin_task: false, ..*old(self) }) && (r matches TaskStep::Reloading {
                    updated: n,
                    failed: f,
                } && n == updated && f == failed),
                TaskPoll::Event(TaskEvent::Installed { name, dir, themes }) => *final(self) == (App {
                    plugin_task: false,
                    ..*old(self)
                }) && (r matches TaskStep::Register { name: n, source, dir: d, themes: packs } && n
                    == name && d == dir && packs == themes && source@ == trimmed(
                    old(self).input.text@,
                )),
                TaskPoll::Empty => *final(self) == *old(self) && r is Wait,
                TaskPoll::Gone => *final(self) == (App {
                    plugin_state: final(self).plugin_state,
                    plugin_task: false,
                    ..*old(self)
                }) && (final(self).plugin_state matches TaskState::Error(e) && e@
                    == "task thread died"@) && r is Done,
            },
    {
        match poll {
            TaskPoll::Event(event) => match event {
                TaskEvent::Log(line) => {
                    self.log_task_line(line);
                    TaskStep::Next
                },
                TaskEvent::Results(found) => {
                    self.plugin_task = false;
                    self.plugin_state = TaskState::Results(found);
                    TaskStep::Done
                },
                TaskEvent::NotFound(q) => {
                    self.plugin_task = false;
                    self.plugin_state = TaskState::NotFound(q);
                    TaskStep::Done
                },
                TaskEvent::Error(e) => {
                    self.plugin_task = false;
                    let error = e.clone();
                    self.plugin_state = TaskState::Error(e);
                    TaskStep::Failed { error }
                },
                TaskEvent::Updated { name, themes } => {
                    let source = match plugin_with(&self.installed_plugins, name.as_str()) {
                        Some(p) => p.source.clone(),
                        None => "plugin".to_string(),
                    };
                    self.note_update(name.as_str(), themes.len());
                    TaskStep::Import { source, themes }
                },
                TaskEvent::UpdateFinished { updated, failed } => {
                    self.plugin_task = false;
                    TaskStep::Reloading { updated, failed }
                },
                TaskEvent::Installed { name, dir, themes } => {
                    self.plugin_task = false;
                    let source = trim(self.input.text.as_str());
                    TaskStep::Register { name, source, dir, themes }
                },
            },
            TaskPoll::Empty => TaskStep::Wait,
            TaskPoll::Gone => {
                self.plugin_task = false;
                self.plugin_state = TaskState::Error("task thread died".to_string());
                TaskStep::Done
            },
        }
    }

    /// After a plugin was registered: the list of installed plugins has the focus
    /// again.
    #[verifier::rlimit(40)]
    pub fn plugin_installed(
        &mut self,
        name: String,
        dir: String,
        theme_count: usize,
        plugins: Vec<PluginRow>,
    )
        requires
            old(self).wf(),
        ensures
            final(self).wf(),
            *final(self) == (App {
                installed_plugins: plugins,
                plugin_selected: final(self).plugin_selected,
                message: final(self).message,
                plugin_state: (TaskState::Installed { name, dir, theme_count }),
                mode: if old(self).installs() {
                    (Mode::PluginManager { pane: PluginPane::List })
                } else {
                    old(self).mode
                },
                input: final(self).input,
                ..*old(self)
            }),
            final(self).plugin_selected == within(
                old(self).plugin_selected as int,
                plugins@.len() as int,
            ),
            if old(self).installs() {
                final(self).input@ == empty_input()
            } else {
                final(self).input == old(self).input
            },
            says(final(self).message, "installed "@ + name@ + theme_note(theme_count as nat)),
    {
        self.reload_installed_plugins(plugins);
        let a = concat("installed ", name.as_str());
        let text = concat(a.as_str(), note_themes(theme_count).as_str());
        self.set_message(text.as_str());
        self.plugin_state = TaskState::Installed { name, dir, theme_count };
        let installs = match &self.mode {
            Mode::PluginManager { pane } => match pane {
                PluginPane::Install => true,
                PluginPane::List => false,
            },
            _ => false,
        };
        if installs {
            self.mode = Mode::PluginManager { pane: PluginPane::List };
            self.input.clear();
        }
    }

    /// Whether the install input has the focus.
    pub open spec fn installs(&self) -> bool {
        self.mode matches Mode::PluginManager { pane } && pane is Install
    }

    /// After the plugins were loaded again behind an update of all.
    pub fn update_finished(
        &mut self,
        updated: usize,
        failed: &Vec<String>,
        problems: &Vec<String>,
        plugins: Vec<PluginRow>,
    )
        requires
            old(self).wf(),
        ensures
            final(self).wf(),
            *final(self) == (App {
                installed_plugins: plugins,
                plugin_selected: final(self).plugin_selected,
                message: final(self).message,
                plugin_state: TaskState::Idle,
                ..*old(self)
            }),
            final(self).plugin_selected == within(
                old(self).plugin_selected as int,
                plugins@.len() as int,
            ),
            says(
                final(self).message,
                update_message(updated as nat, texts(failed@), texts(problems@)),
            ),
    {
        let text = update_text(updated, failed, problems);
        self.set_message(text.as_str());
        self.plugin_state = TaskState::Idle;
        self.reload_installed_plugins(plugins);
    }
}

/// Switching a plugin writes its row; switching on one with themes selects its first theme,
/// and switching it off restores the theme of the system. No theme is touched otherwise.
pub proof fn law_switching_writes_the_row(
    id: Seq<char>,
    activating: bool,
    is_theme: bool,
    first: Option<Seq<char>>,
)
    ensures
        toggle_stmts(id, activating, is_theme, first).len() == (if !is_theme {
            1int
        } else if !activating {
            2
        } else if first is Some {
            3
        } else {
            1
        }),
        toggle_stmts(id, activating, is_theme, first)[0].sql
            == "UPDATE plugins SET active = ? WHERE id = ?"@,
        toggle_stmts(id, activating, is_theme, first)[0].params == seq![
            Val::Integer(
                if activating {
                    1
                } else {
                    0
                },
            ),
            Val::Text(id),
        ],
        is_theme && !activating ==> toggle_stmts(id, activating, is_theme, first)[1].sql
            == "INSERT INTO settings (key, value) VALUES ('theme_mode', 'system') ON CONFLICT(key) DO UPDATE SET value = excluded.value"@,
        is_theme && activating && first is Some ==> toggle_stmts(
            id,
            activating,
            is_theme,
            first,
        )[1].sql
            == "INSERT INTO settings (key, value) VALUES ('theme_mode', 'explicit') ON CONFLICT(key) DO UPDATE SET value = excluded.value"@
            && toggle_stmts(id, activating, is_theme, first)[2].sql
            == "INSERT INTO settings (key, value) VALUES ('selected_theme_id', ?) ON CONFLICT(key) DO UPDATE SET value = excluded.value"@
            && toggle_stmts(id, activating, is_theme, first)[2].params == seq![
            Val::Text(first->0),
        ],
{
    assert(plugin_active_stmt(id, activating).params =~= seq![
        Val::Integer(
            if activating {
                1
            } else {
                0
            },
        ),
        Val::Text(id),
    ]);
    if first is Some {
        assert(selected_theme_stmt(first->0).params =~= seq![Val::Text(first->0)]);
    }
}

/// The message of a switch begins with the plugin and says which way it was switched.
pub proof fn law_the_message_names_the_plugin(
    id: Seq<char>,
    activating: bool,
    is_theme: bool,
    theme: Option<Seq<char>>,
)
    ensures
        crate::text::starts_with(
            toggle_message(id, activating, is_theme, theme),
            id + (if activating {
                " activated"@
            } else {
                " deactivated"@
            }),
        ),
        is_theme && activating && theme is Some ==> crate::text::contains(
            toggle_message(id, activating, is_theme, theme),
            "'"@ + theme->0 + "'"@,
        ),
        !is_theme && activating ==> toggle_message(id, activating, is_theme, theme) == id
            + " activated"@,
        !is_theme && !activating ==> toggle_message(id, activating, is_theme, theme) == id
            + " deactivated"@,
{
    reveal_strlit(" activated");
    reveal_strlit(" deactivated");
    reveal_strlit(" activated — theme '");
    reveal_strlit("' applied");
    reveal_strlit("'");
    reveal_strlit(" applied");
    reveal_strlit(" — theme ");
    reveal_strlit(" activated (no theme packs found)");
    reveal_strlit(" (no theme packs found)");
    reveal_strlit(" deactivated — reverted to builtin dark");
    reveal_strlit(" — reverted to builtin dark");
    let e = Seq::<char>::empty();
    let m = toggle_message(id, activating, is_theme, theme);
    let front = id + (if activating {
        " activated"@
    } else {
        " deactivated"@
    });
    if is_theme && activating {
        if theme is Some {
            let quoted = "'"@ + theme->0 + "'"@;
            assert(m =~= (front + " — theme "@) + quoted + " applied"@);
            assert(m =~= front + (" — theme "@ + quoted + " applied"@));
            crate::text::law_a_text_holds_its_parts(front + " — theme "@, quoted, " applied"@);
            crate::text::law_a_text_holds_its_parts(
                e,
                front,
                " — theme "@ + quoted + " applied"@,
            );
        } else {
            assert(m =~= front + " (no theme packs found)"@);
            crate::text::law_a_text_holds_its_parts(e, front, " (no theme packs found)"@);
        }
    } else if is_theme {
        assert(m =~= front + " — reverted to builtin dark"@);
        crate::text::law_a_text_holds_its_parts(e, front, " — reverted to builtin dark"@);
    } else {
        assert(m =~= front + e);
        crate::text::law_a_text_holds_its_parts(e, front, e);
    }
}

/// The end of an update says how many plugins were updated, and lists the failures and the
/// problems, if there are any.
pub proof fn law_the_end_of_an_update_tells_all(
    updated: nat,
    failed: Seq<Seq<char>>,
    problems: Seq<Seq<char>>,
)
    ensures
        failed.len() == 0 && problems.len() == 0 ==> update_message(updated, failed, problems)
            == "updated "@ + decimal(updated) + " plugin"@ + (if updated == 1 {
            Seq::empty()
        } else {
            "s"@
        }),
        failed.len() > 0 && problems.len() == 0 ==> update_message(updated, failed, problems)
            == "updated "@ + decimal(updated) + ", failed: "@ + joined(failed, "; "@),
        problems.len() > 0 ==> update_message(updated, failed, problems) == update_message(
            updated,
            failed,
            Seq::empty(),
        ) + " — ⚠ "@ + joined(problems, "; "@),
{
    reveal_strlit("");
    assert(""@ =~= Seq::empty());
}

/// A line is added to the log of a running task, and begins one where none runs; an updated
/// plugin is noted in the log of a running task alone.
pub proof fn law_tasks_log_what_happens(after: App, before: App, line: Seq<char>, themes: nat)
    ensures
        after.logged_line(before, line) ==> after.goals == before.goals && after.mode == before.mode
            && task_log(after.plugin_state) is Some && task_log(after.plugin_state)->0.len() > 0
            && task_log(after.plugin_state)->0.last() == line,
        after.logged_line(before, line) && task_log(before.plugin_state) is None ==> task_log(
            after.plugin_state,
        )->0.len() == 1,
        after.noted_update(before, line, themes) && task_log(before.plugin_state) is Some
            ==> task_log(after.plugin_state) is Some && task_log(after.plugin_state)->0.drop_last()
            == task_log(before.plugin_state)->0 && crate::text::starts_with(
            task_log(after.plugin_state)->0.last(),
            line + " updated"@,
        ),
        after.noted_update(before, line, themes) && task_log(before.plugin_state) is None
            ==> after == before,
{
    if after.logged_line(before, line) && task_log(before.plugin_state) is Some {
        crate::agents::law_the_log_keeps_the_newest_lines(
            task_log(before.plugin_state)->0,
            line,
            0,
        );
    }
    if after.noted_update(before, line, themes) && task_log(before.plugin_state) is Some {
        let log = task_log(before.plugin_state)->0;
        let x = line + " updated"@ + theme_note(themes);
        assert(log.push(x).drop_last() =~= log);
        crate::text::law_a_text_holds_its_parts(
            Seq::empty(),
            line + " updated"@,
            theme_note(themes),
        );
    }
}

/// Other clients are told of an agent backend where some plugin runs goals, and the source
/// of a plugin is that of its row.
pub proof fn law_sources_are_those_of_the_rows(s: Seq<PluginRow>, k: int)
    requires
        0 <= k < s.len(),
        forall|j: int| 0 <= j < s.len() && j != k ==> (#[trigger] s[j]).id@ != s[k].id@,
    ensures
        source_of(s, s[k].id@) == s[k].source@,
{
    crate::agents::law_plugins_are_found_by_id(s, s[k].id@);
}

} // verus!
