//! The state of the application and what the keys of the goal list do to it.
//!
//! Nothing here reads or writes: a method that leads to a write returns what is
//! to be written, and the method that completes it takes what was read back.

use crate::buffers::BufferManager;
use crate::collections::{StrMap, StrSet};
use crate::config::Keybinds;
use crate::db::{completion, complete, reopening, uncomplete, PluginRow};
use crate::plugins::TaskState;
use crate::schema::{no_change, CreateGoalInput, Goal, GoalSheet, GoalStatus, UpdateGoalInput};
use crate::sheets::SheetManager;
use crate::text::{
    concat, is_blank, is_white_space, law_trimming_cuts_blanks_at_both_ends, opt, opt_clone, str_eq, trim,
    trimmed,
};
use crate::theme::Theme;
use crate::time::{due_after, is_time, next_due_at, rfc3339, utc_seconds};
use crate::tree::{
    hangs_below, law_a_sheet_holds_its_goals, law_rows_are_marked, law_rows_hang_below_their_parents,
    law_rows_show_what_is_unfolded, partial_ids, partially_complete, rows_of, rows_view, unique_ids, visible_rows, FlatRow, Row,
};
use crate::types::{
    ActivePluginModal, AgentChoice, HelpTab, InputBuffer, InputView, Mode, PluginCommand, SyncStatus,
    UiSpec, empty_input,
};
use vstd::prelude::*;

verus! {

/// The state of the application.
pub struct App {
    pub keybinds: Keybinds,
    pub theme: Theme,
    /// The open dialog of a plugin, in `Mode::PluginModal`.
    pub plugin_modal: Option<ActivePluginModal>,
    /// The title of the open panel of a plugin, in `Mode::PluginPanel`.
    pub plugin_panel: Option<String>,
    /// The loaded plugins by name, without the one that runs a command.
    pub plugin_states: StrSet,
    pub plugin_commands: Vec<PluginCommand>,
    pub help_tabs: Vec<HelpTab>,
    pub help_selected: usize,
    pub help_scroll: usize,
    pub command_running: bool,
    pub command_selected: usize,
    /// Whether a handle for the sync is there.
    pub sync_attached: bool,
    pub sync_status: SyncStatus,
    /// Whether the outcome of a sync is awaited.
    pub sync_waiting: bool,
    pub sync_in_flight: bool,
    pub last_sync_attempt: Option<u64>,
    pub goals: Vec<Goal>,
    pub expanded: StrSet,
    pub detailed: Option<String>,
    /// The selected row; the one behind the last row stands for a new root goal.
    pub selected: usize,
    /// Whether the leader key was pressed and a command is awaited.
    pub leader_pending: bool,
    pub mode: Mode,
    pub input: InputBuffer,
    pub message: Option<String>,
    /// Whether a task of the plugin manager is running.
    pub plugin_task: bool,
    pub plugin_state: TaskState,
    pub installed_plugins: Vec<PluginRow>,
    pub plugin_selected: usize,
    pub config_spec: Option<UiSpec>,
    pub global_spec: Option<UiSpec>,
    pub global_values: StrMap,
    pub global_plugin_entries: Vec<(String, String)>,
    pub config_values: StrMap,
    pub config_selected: usize,
    /// The field being edited, if one is.
    pub config_editing: Option<String>,
    pub agent_choices: Vec<AgentChoice>,
    pub agent_selected: usize,
    /// Whether events of an agent run are awaited.
    pub agent_waiting: bool,
    pub agent_log: Vec<String>,
    pub agent_goal: Option<String>,
    pub move_choices: Vec<(Option<String>, String)>,
    pub move_selected: usize,
    pub sheets: Vec<GoalSheet>,
    /// The active sheet.
    pub sheet_manager: SheetManager,
    pub sheet_picker_selected: usize,
    /// The buffers of plugins, and the one that is shown.
    pub buffer_manager: BufferManager,
}

/// Whether a message says a text.
pub open spec fn says(m: Option<String>, text: Seq<char>) -> bool {
    opt(m) == Some(text)
}

/// An input buffer with a text and the cursor at its end.
pub open spec fn typed(text: Seq<char>) -> InputView {
    InputView { before: text, after: Seq::empty() }
}

/// The first row that shows a goal.
pub open spec fn row_position(rows: Seq<Row>, id: Seq<char>) -> Option<int>
    decreases rows.len(),
{
    if rows.len() == 0 {
        None
    } else if rows[0].goal.id@ == id {
        Some(0)
    } else {
        match row_position(rows.drop_first(), id) {
            Some(i) => Some(i + 1),
            None => None,
        }
    }
}

/// `row_position` is the least position of the goal.
pub proof fn lemma_row_position(rows: Seq<Row>, id: Seq<char>)
    ensures
        match row_position(rows, id) {
            Some(i) => 0 <= i < rows.len() && rows[i].goal.id@ == id && forall|j: int|
                0 <= j < i ==> (#[trigger] rows[j]).goal.id@ != id,
            None => forall|j: int| 0 <= j < rows.len() ==> (#[trigger] rows[j]).goal.id@ != id,
        },
    decreases rows.len(),
{
    if rows.len() > 0 && rows[0].goal.id@ != id {
        let t = rows.drop_first();
        lemma_row_position(t, id);
        assert forall|j: int| 0 < j < rows.len() implies rows[j] == t[j - 1] by {}
    }
}

/// The first row that shows a goal.
pub fn find_row(rows: &Vec<FlatRow>, id: &str) -> (r: Option<usize>)
    ensures
        match r {
            Some(i) => row_position(rows_view(rows@), id@) == Some(i as int),
            None => row_position(rows_view(rows@), id@) is None,
        },
{
    let mut i: usize = 0;
    while i < rows.len()
        invariant
            i <= rows@.len(),
            forall|j: int| 0 <= j < i ==> (#[trigger] rows_view(rows@)[j]).goal.id@ != id@,
        decreases rows@.len() - i,
    {
        assert(rows_view(rows@)[i as int].goal == rows@[i as int].goal);
        if str_eq(rows[i].goal.id.as_str(), id) {
            proof {
                lemma_row_position(rows_view(rows@), id@);
            }
            return Some(i);
        }
        i = i + 1;
    }
    proof {
        lemma_row_position(rows_view(rows@), id@);
    }
    None
}

/// The smaller of two numbers.
pub open spec fn least(a: int, b: int) -> int {
    if a <= b {
        a
    } else {
        b
    }
}

/// A change to one goal, and what to say once it is written.
#[derive(Debug)]
pub struct GoalChange {
    pub goal_id: String,
    pub update: UpdateGoalInput,
    pub message: String,
}

/// A goal to be added.
#[derive(Debug)]
pub struct NewGoal {
    pub title: String,
    pub parent_id: Option<String>,
    pub sheet_id: Option<String>,
}

/// The rule by which a goal repeats, if it does.
pub open spec fn repeats(g: Goal) -> Option<Seq<char>> {
    match g.repeat_rule {
        Some(r) => if r@.len() > 0 && r@ != "none"@ {
            Some(r@)
        } else {
            None
        },
        None => None,
    }
}

/// The status after this one; what an agent has taken becomes pending.
pub open spec fn next_status(s: GoalStatus) -> GoalStatus {
    match s {
        GoalStatus::Pending => GoalStatus::InProgress,
        GoalStatus::InProgress => GoalStatus::Completed,
        _ => GoalStatus::Pending,
    }
}

/// The name of a status in messages.
pub open spec fn status_words(s: GoalStatus) -> Seq<char> {
    match s {
        GoalStatus::Pending => "status: pending"@,
        GoalStatus::InProgress => "status: in progress"@,
        GoalStatus::Completed => "status: done"@,
        GoalStatus::AgentMode => "status: agent"@,
    }
}

/// When a goal that gets done at a time comes up again.
pub open spec fn comes_up(g: Goal, now: int) -> Option<Seq<char>> {
    match repeats(g) {
        Some(rule) => due_after(rule, now),
        None => None,
    }
}

/// Whether an update puts a goal off to a due date, pending.
pub open spec fn rescheduling(u: UpdateGoalInput, due: Seq<char>) -> bool {
    &&& u == (UpdateGoalInput {
        status: Some(GoalStatus::Pending),
        due_at: u.due_at,
        completed_at: Some(None),
        ..no_change()
    })
    &&& u.due_at is Some && opt(u.due_at->0) == Some(due)
}

/// Whether an update sets a status, with the time of completion for a goal that
/// is done and none for any other.
pub open spec fn status_update(u: UpdateGoalInput, s: GoalStatus, now_iso: Seq<char>) -> bool {
    &&& u == (UpdateGoalInput {
        status: Some(s),
        completed_at: u.completed_at,
        ..no_change()
    })
    &&& u.completed_at is Some && opt(u.completed_at->0) == (if s == GoalStatus::Completed {
        Some(now_iso)
    } else {
        None
    })
}

/// What cycling the status of a goal at a time changes: the next status; but a
/// goal that would be done and repeats is put off instead.
pub open spec fn cycling(c: GoalChange, g: Goal, now: int, now_iso: Seq<char>) -> bool {
    let next = next_status(g.status);
    &&& c.goal_id@ == g.id@
    &&& if next == GoalStatus::Completed && comes_up(g, now) is Some {
        rescheduling(c.update, comes_up(g, now)->0) && c.message@ == "repeated: next due "@
            + comes_up(g, now)->0
    } else {
        status_update(c.update, next, now_iso) && c.message@ == status_words(next)
    }
}

/// What toggling a goal at a time changes: a done goal is reopened; another is
/// completed, or put off where it repeats.
pub open spec fn toggling(c: GoalChange, g: Goal, now: int, now_iso: Seq<char>) -> bool {
    &&& c.goal_id@ == g.id@
    &&& if g.status == GoalStatus::Completed {
        c.update == reopening() && c.message@ == "toggled complete"@
    } else if comes_up(g, now) is Some {
        rescheduling(c.update, comes_up(g, now)->0) && c.message@ == "repeated: next due "@
            + comes_up(g, now)->0
    } else {
        completion(c.update, now_iso) && c.message@ == "toggled complete"@
    }
}

fn repeat_of(g: &Goal) -> (r: Option<String>)
    ensures
        opt(r) == repeats(*g),
{
    match &g.repeat_rule {
        Some(rule) => {
            if !rule.as_str().is_empty() && !str_eq(rule.as_str(), "none") {
                Some(rule.clone())
            } else {
                None
            }
        },
        None => None,
    }
}

fn due_again(g: &Goal, now: i64) -> (r: Option<String>)
    requires
        is_time(now as int),
    ensures
        opt(r) == comes_up(*g, now as int),
{
    match repeat_of(g) {
        Some(rule) => next_due_at(rule.as_str(), now),
        None => None,
    }
}

fn put_off(g: &Goal, due: String) -> (r: GoalChange)
    ensures
        r.goal_id@ == g.id@,
        rescheduling(r.update, due@),
        r.message@ == "repeated: next due "@ + due@,
{
    let message = concat("repeated: next due ", due.as_str());
    GoalChange {
        goal_id: g.id.clone(),
        update: UpdateGoalInput {
            status: Some(GoalStatus::Pending),
            due_at: Some(Some(due)),
            completed_at: Some(None),
            ..UpdateGoalInput::default()
        },
        message,
    }
}

/// What cycling the status of a goal changes.
pub fn cycle_goal(g: &Goal, now: i64, now_iso: &str) -> (r: GoalChange)
    requires
        is_time(now as int),
    ensures
        cycling(r, *g, now as int, now_iso@),
{
    let next = match g.status {
        GoalStatus::Pending => GoalStatus::InProgress,
        GoalStatus::InProgress => GoalStatus::Completed,
        _ => GoalStatus::Pending,
    };
    if next == GoalStatus::Completed {
        match due_again(g, now) {
            Some(due) => {
                return put_off(g, due);
            },
            None => {},
        }
    }
    let completed_at = if next == GoalStatus::Completed {
        Some(now_iso.to_owned())
    } else {
        None
    };
    let message = match next {
        GoalStatus::Pending => "status: pending",
        GoalStatus::InProgress => "status: in progress",
        GoalStatus::Completed => "status: done",
        GoalStatus::AgentMode => "status: agent",
    };
    GoalChange {
        goal_id: g.id.clone(),
        update: UpdateGoalInput {
            status: Some(next),
            completed_at: Some(completed_at),
            ..UpdateGoalInput::default()
        },
        message: message.to_owned(),
    }
}

/// What toggling a goal changes.
pub fn toggle_goal(g: &Goal, now: i64, now_iso: &str) -> (r: GoalChange)
    requires
        is_time(now as int),
    ensures
        toggling(r, *g, now as int, now_iso@),
{
    if g.status == GoalStatus::Completed {
        return GoalChange {
            goal_id: g.id.clone(),
            update: uncomplete(),
            message: "toggled complete".to_string(),
        };
    }
    match due_again(g, now) {
        Some(due) => put_off(g, due),
        None => GoalChange {
            goal_id: g.id.clone(),
            update: complete(now_iso),
            message: "toggled complete".to_string(),
        },
    }
}

/// What an entered repeat rule means.
#[derive(Debug)]
pub enum RepeatInput {
    Clear,
    Rule(String),
    Invalid,
}

/// Whether a rule is one of the four that are known.
pub open spec fn is_rule(s: Seq<char>) -> bool {
    s == "daily"@ || s == "weekly"@ || s == "monthly"@ || s == "yearly"@
}

/// Reads a repeat rule in lower case: nothing and `none` clear it.
pub fn repeat_input(text: String) -> (r: RepeatInput)
    ensures
        match r {
            RepeatInput::Clear => text@.len() == 0 || text@ == "none"@,
            RepeatInput::Rule(s) => s == text && is_rule(text@) && text@.len() > 0 && text@
                != "none"@,
            RepeatInput::Invalid => text@.len() > 0 && text@ != "none"@ && !is_rule(text@),
        },
{
    if text.as_str().is_empty() || str_eq(text.as_str(), "none") {
        RepeatInput::Clear
    } else if str_eq(text.as_str(), "daily") || str_eq(text.as_str(), "weekly") || str_eq(
        text.as_str(),
        "monthly",
    ) || str_eq(text.as_str(), "yearly") {
        RepeatInput::Rule(text)
    } else {
        RepeatInput::Invalid
    }
}

/// An entered text that clears a field where it is blank.
pub open spec fn entered(s: Seq<char>) -> Option<Seq<char>> {
    if trimmed(s).len() == 0 {
        None
    } else {
        Some(trimmed(s))
    }
}


/// A text of a clearable field that an update sets.
pub open spec fn sets(field: Option<Option<String>>, text: Option<Seq<char>>) -> bool {
    field is Some && opt(field->0) == text
}

impl App {
    /// Whether the ids of the goals are unique and the cursor of the input stands
    /// between two characters.
    pub open spec fn wf(&self) -> bool {
        unique_ids(self.goals@) && self.input.wf()
    }

    /// The state at the start.
    pub fn new(goals: Vec<Goal>, sheets: Vec<GoalSheet>, theme: Theme) -> (r: App)
        requires
            unique_ids(goals@),
        ensures
            r.wf(),
            r.goals == goals,
            r.sheets == sheets,
            r.theme == theme,
            r.keybinds == crate::config::default_keybinds(),
            r.mode is Normal,
            r.input@ == empty_input(),
            r.message is None,
            r.selected == 0,
            r.expanded@ == Set::<Seq<char>>::empty(),
            r.detailed is None,
            r.leader_pending == false,
            r.sheet_manager.active is None,
            r.buffer_manager.active is None,
            r.plugin_modal is None,
            r.plugin_panel is None,
            r.plugin_states@ == Set::<Seq<char>>::empty(),
            r.buffer_manager.buffers@ == Map::<Seq<char>, Seq<char>>::empty(),
            r.sheet_manager.attached,
            r.plugin_commands@.len() == 0,
            r.installed_plugins@.len() == 0,
            r.help_tabs@.len() == 0,
            r.agent_choices@.len() == 0,
            r.agent_log@.len() == 0,
            r.agent_goal is None,
            r.move_choices@.len() == 0,
            r.global_plugin_entries@.len() == 0,
            r.config_spec is None,
            r.global_spec is None,
            r.config_editing is None,
            r.config_values@ == Map::<Seq<char>, Seq<char>>::empty(),
            r.global_values@ == Map::<Seq<char>, Seq<char>>::empty(),
            r.sync_status is NotConfigured,
            !r.sync_attached && !r.sync_waiting && !r.sync_in_flight,
            r.last_sync_attempt is None,
            !r.command_running && !r.plugin_task && !r.agent_waiting,
            r.plugin_state is Idle,
            r.help_selected == 0 && r.help_scroll == 0,
            r.command_selected == 0 && r.plugin_selected == 0 && r.config_selected == 0,
            r.agent_selected == 0 && r.move_selected == 0 && r.sheet_picker_selected == 0,
    {
        let mut sheet_manager = SheetManager::new();
        sheet_manager.attach_db();
        App {
            keybinds: Keybinds::default(),
            theme,
            plugin_modal: None,
            plugin_panel: None,
            plugin_states: StrSet::new(),
            plugin_commands: Vec::new(),
            help_tabs: Vec::new(),
            help_selected: 0,
            help_scroll: 0,
            command_running: false,
            command_selected: 0,
            sync_attached: false,
            sync_status: SyncStatus::NotConfigured,
            sync_waiting: false,
            sync_in_flight: false,
            last_sync_attempt: None,
            goals,
            expanded: StrSet::new(),
            detailed: None,
            selected: 0,
            leader_pending: false,
            mode: Mode::Normal,
            input: InputBuffer::new(),
            message: None,
            plugin_task: false,
            plugin_state: TaskState::Idle,
            installed_plugins: Vec::new(),
            plugin_selected: 0,
            config_spec: None,
            global_spec: None,
            global_values: StrMap::new(),
            global_plugin_entries: Vec::new(),
            config_values: StrMap::new(),
            config_selected: 0,
            config_editing: None,
            agent_choices: Vec::new(),
            agent_selected: 0,
            agent_waiting: false,
            agent_log: Vec::new(),
            agent_goal: None,
            move_choices: Vec::new(),
            move_selected: 0,
            sheets,
            sheet_manager,
            sheet_picker_selected: 0,
            buffer_manager: BufferManager::new(),
        }
    }

    // ---------- rows and selection ----------

    /// The visible rows: none while a buffer of a plugin is shown.
    pub open spec fn rows(&self) -> Seq<Row> {
        if self.buffer_manager.active is Some {
            Seq::empty()
        } else {
            visible_rows(self.goals@, opt(self.sheet_manager.active), self.expanded@)
        }
    }

    /// The goal of the selected row.
    pub open spec fn current(&self) -> Option<Goal> {
        if self.selected < self.rows().len() {
            Some(self.rows()[self.selected as int].goal)
        } else {
            None
        }
    }

    /// The selected row.
    pub fn selected_index(&self) -> (r: usize)
        ensures
            r == self.selected,
    {
        self.selected
    }

    /// The visible rows.
    pub fn flat_rows(&self) -> (r: Vec<FlatRow>)
        ensures
            rows_view(r@) == self.rows(),
    {
        if self.buffer_manager.active.is_some() {
            let none: Vec<FlatRow> = Vec::new();
            assert(rows_view(none@) =~= Seq::empty());
            return none;
        }
        rows_of(&self.goals, &self.sheet_manager.active, &self.expanded)
    }

    /// The selected row, unless it is the one behind the last.
    pub fn selected_row(&self) -> (r: Option<FlatRow>)
        ensures
            match r {
                Some(row) => self.selected < self.rows().len() && row@
                    == self.rows()[self.selected as int],
                None => self.selected >= self.rows().len(),
            },
    {
        let rows = self.flat_rows();
        assert(rows@.len() == self.rows().len());
        if self.selected < rows.len() {
            assert(rows_view(rows@)[self.selected as int] == rows@[self.selected as int]@);
            Some(rows[self.selected].clone())
        } else {
            None
        }
    }

    /// Whether the row behind the last one is selected.
    pub fn is_dummy_selected(&self) -> (r: bool)
        ensures
            r == (self.selected == self.rows().len()),
    {
        let rows = self.flat_rows();
        assert(rows@.len() == self.rows().len());
        self.selected == rows.len()
    }

    /// The number of rows with the one behind the last.
    pub fn flat_len_with_dummy(&self) -> (r: usize)
        requires
            self.rows().len() < usize::MAX,
        ensures
            r == self.rows().len() + 1,
    {
        let rows = self.flat_rows();
        assert(rows@.len() == self.rows().len());
        rows.len() + 1
    }

    /// The completed goals below which something is not completed.
    pub fn partially_complete_ids(&self) -> (r: StrSet)
        requires
            self.wf(),
        ensures
            forall|x: Seq<char>| #[trigger]
                r@.contains(x) <==> exists|i: int|
                    0 <= i < self.goals@.len() && (#[trigger] self.goals@[i]).id@ == x
                        && partially_complete(self.goals@, self.goals@[i]),
    {
        partial_ids(&self.goals)
    }

    /// Selects the row above.
    pub fn move_up(&mut self)
        ensures
            final(self).selected == (if old(self).selected > 0 {
                old(self).selected - 1
            } else {
                0
            }),
            *final(self) == (App { selected: final(self).selected, ..*old(self) }),
    {
        if self.selected > 0 {
            self.selected = self.selected - 1;
        }
    }

    /// Selects the row below, up to the one behind the last.
    pub fn move_down(&mut self)
        ensures
            final(self).selected == (if old(self).selected < old(self).rows().len() {
                old(self).selected + 1
            } else {
                old(self).selected as int
            }),
            *final(self) == (App { selected: final(self).selected, ..*old(self) }),
    {
        let rows = self.flat_rows();
        assert(rows@.len() == self.rows().len());
        if self.selected < rows.len() {
            self.selected = self.selected + 1;
        }
    }

    /// Selects the first row.
    pub fn select_first(&mut self)
        ensures
            *final(self) == (App { selected: 0, ..*old(self) }),
    {
        self.selected = 0;
    }

    /// Selects the row behind the last.
    pub fn select_last(&mut self)
        ensures
            final(self).selected == old(self).rows().len(),
            *final(self) == (App { selected: final(self).selected, ..*old(self) }),
    {
        let rows = self.flat_rows();
        assert(rows@.len() == self.rows().len());
        self.selected = rows.len();
    }

    /// Takes the goals as they were read back; the selection stays within the
    /// rows.
    pub fn reload(&mut self, goals: Vec<Goal>)
        requires
            old(self).wf(),
            unique_ids(goals@),
        ensures
            final(self).wf(),
            final(self).goals == goals,
            *final(self) == (App { goals, selected: final(self).selected, ..*old(self) }),
            final(self).selected == least(
                old(self).selected as int,
                final(self).rows().len() as int,
            ),
    {
        self.goals = goals;
        let rows = self.flat_rows();
        assert(rows@.len() == self.rows().len());
        if self.selected > rows.len() {
            self.selected = rows.len();
        }
    }

    /// Unfolds or folds the selected goal, where it has children.
    pub fn toggle_expand(&mut self)
        requires
            old(self).wf(),
        ensures
            final(self).wf(),
            *final(self) == (App { expanded: final(self).expanded, ..*old(self) }),
            match old(self).current() {
                Some(g) => final(self).expanded@ == (if !old(
                    self,
                ).rows()[old(self).selected as int].has_children {
                    old(self).expanded@
                } else if old(self).expanded@.contains(g.id@) {
                    old(self).expanded@.remove(g.id@)
                } else {
                    old(self).expanded@.insert(g.id@)
                }),
                None => final(self).expanded@ == old(self).expanded@,
            },
    {
        if let Some(row) = self.selected_row() {
            if row.has_children {
                if self.expanded.contains(row.goal.id.as_str()) {
                    self.expanded.remove(row.goal.id.as_str());
                } else {
                    self.expanded.insert(row.goal.id.clone());
                }
            }
        }
    }

    /// Whether the details of the selected goal were shown and it was unfolded, or
    /// hidden and folded.
    pub open spec fn details_toggled(&self, before: App) -> bool {
        &&& *self == (App { expanded: self.expanded, detailed: self.detailed, ..before })
        &&& match before.current() {
            Some(g) => if opt(before.detailed) == Some(g.id@) {
                self.detailed is None && self.expanded@ == before.expanded@.remove(g.id@)
            } else {
                self.detailed == Some(g.id) && self.expanded@ == before.expanded@.insert(g.id@)
            },
            None => *self == before,
        }
    }

    /// Shows the details of the selected goal and unfolds it, or hides them and
    /// folds it.
    pub fn toggle_details(&mut self)
        requires
            old(self).wf(),
        ensures
            final(self).wf(),
            final(self).details_toggled(*old(self)),
    {
        if let Some(row) = self.selected_row() {
            let id = row.goal.id.clone();
            if crate::text::opt_is(&self.detailed, id.as_str()) {
                self.detailed = None;
                self.expanded.remove(id.as_str());
            } else {
                self.detailed = Some(id.clone());
                self.expanded.insert(id);
            }
        }
    }

    // ---------- messages ----------

    /// Shows a message.
    pub fn set_message(&mut self, msg: &str)
        ensures
            says(final(self).message, msg@),
            *final(self) == (App { message: final(self).message, ..*old(self) }),
    {
        self.message = Some(msg.to_owned());
    }

    /// Clears the message.
    pub fn clear_message(&mut self)
        ensures
            *final(self) == (App { message: None, ..*old(self) }),
    {
        self.message = None;
    }

    /// Returns to the goal list and empties the input.
    pub fn cancel(&mut self)
        requires
            old(self).wf(),
        ensures
            final(self).wf(),
            final(self).input@ == empty_input(),
            *final(self) == (App { mode: Mode::Normal, input: final(self).input, ..*old(self) }),
    {
        self.mode = Mode::Normal;
        self.input.clear();
    }

    // ---------- changing goals ----------

    /// What cycling the status of the selected goal at a time changes.
    pub fn cycle_status_at(&self, now: i64, now_iso: &str) -> (r: Option<GoalChange>)
        requires
            is_time(now as int),
        ensures
            match r {
                Some(c) => self.current() is Some && cycling(
                    c,
                    self.current()->0,
                    now as int,
                    now_iso@,
                ),
                None => self.current() is None,
            },
    {
        match self.selected_row() {
            Some(row) => Some(cycle_goal(&row.goal, now, now_iso)),
            None => None,
        }
    }

    /// What cycling the status of the selected goal now changes.
    pub fn cycle_status(&self, now_iso: &str) -> (r: Option<GoalChange>)
        ensures
            r is Some <==> self.current() is Some,
            r is Some ==> exists|now: int| #[trigger]
                is_time(now) && cycling(r->0, self.current()->0, now, now_iso@),
    {
        let now: i64 = utc_seconds();
        let r = self.cycle_status_at(now, now_iso);
        assert(is_time(now as int));
        r
    }

    /// What toggling the selected goal at a time changes.
    pub fn toggle_complete_at(&self, now: i64, now_iso: &str) -> (r: Option<GoalChange>)
        requires
            is_time(now as int),
        ensures
            match r {
                Some(c) => self.current() is Some && toggling(
                    c,
                    self.current()->0,
                    now as int,
                    now_iso@,
                ),
                None => self.current() is None,
            },
    {
        match self.selected_row() {
            Some(row) => Some(toggle_goal(&row.goal, now, now_iso)),
            None => None,
        }
    }

    /// What toggling the selected goal now changes.
    pub fn toggle_complete(&self, now_iso: &str) -> (r: Option<GoalChange>)
        ensures
            r is Some <==> self.current() is Some,
            r is Some ==> exists|now: int| #[trigger]
                is_time(now) && toggling(r->0, self.current()->0, now, now_iso@),
    {
        let now: i64 = utc_seconds();
        let r = self.toggle_complete_at(now, now_iso);
        assert(is_time(now as int));
        r
    }

    /// After a change was written: the goals as read back, and the message.
    pub fn changed(&mut self, goals: Vec<Goal>, message: &str)
        requires
            old(self).wf(),
            unique_ids(goals@),
        ensures
            final(self).wf(),
            *final(self) == (App {
                goals,
                selected: final(self).selected,
                message: final(self).message,
                ..*old(self)
            }),
            final(self).selected == least(
                old(self).selected as int,
                final(self).rows().len() as int,
            ),
            says(final(self).message, message@),
    {
        self.reload(goals);
        self.set_message(message);
    }

    /// After an edit was written: as after any change, and back to the goal list.
    pub fn edited(&mut self, goals: Vec<Goal>, message: &str)
        requires
            old(self).wf(),
            unique_ids(goals@),
        ensures
            final(self).wf(),
            *final(self) == (App {
                goals,
                selected: final(self).selected,
                message: final(self).message,
                mode: Mode::Normal,
                ..*old(self)
            }),
            final(self).selected == least(
                old(self).selected as int,
                final(self).rows().len() as int,
            ),
            says(final(self).message, message@),
    {
        self.changed(goals, message);
        self.mode = Mode::Normal;
    }

    /// Begins a new goal below a parent, or at the root.
    pub fn start_add_goal(&mut self, parent_id: Option<String>)
        requires
            old(self).wf(),
        ensures
            final(self).wf(),
            final(self).input@ == empty_input(),
            *final(self) == (App {
                input: final(self).input,
                mode: Mode::AddGoal { parent_id },
                ..*old(self)
            }),
    {
        self.input.clear();
        self.mode = Mode::AddGoal { parent_id };
    }

    /// The parent that the mode names for a new goal.
    pub open spec fn adding_below(&self) -> Option<String> {
        match self.mode {
            Mode::AddGoal { parent_id } => parent_id,
            _ => None,
        }
    }

    /// Ends the input of a new goal: a blank title cancels it, any other is to be
    /// added to the active sheet.
    pub fn commit_add_goal(&mut self) -> (r: Option<NewGoal>)
        requires
            old(self).wf(),
        ensures
            final(self).wf(),
            match r {
                Some(g) => *final(self) == *old(self) && trimmed(old(self).input.text@).len() > 0
                    && g.title@ == trimmed(old(self).input.text@) && g.parent_id == old(
                    self,
                ).adding_below() && g.sheet_id == old(self).sheet_manager.active,
                None => trimmed(old(self).input.text@).len() == 0 && *final(self) == (App {
                    message: final(self).message,
                    mode: Mode::Normal,
                    ..*old(self)
                }) && says(final(self).message, "empty title — cancelled"@),
            },
    {
        let title = trim(self.input.text.as_str());
        if title.as_str().is_empty() {
            self.set_message("empty title — cancelled");
            self.mode = Mode::Normal;
            return None;
        }
        let parent_id = match &self.mode {
            Mode::AddGoal { parent_id } => opt_clone(parent_id),
            _ => None,
        };
        Some(NewGoal { title, parent_id, sheet_id: opt_clone(&self.sheet_manager.active) })
    }

    /// After a goal was added: its parent is unfolded and the goal selected.
    pub fn goal_added(&mut self, parent_id: &Option<String>, id: &str, goals: Vec<Goal>)
        requires
            old(self).wf(),
            unique_ids(goals@),
        ensures
            final(self).wf(),
            *final(self) == (App {
                goals,
                expanded: final(self).expanded,
                selected: final(self).selected,
                message: final(self).message,
                mode: Mode::Normal,
                ..*old(self)
            }),
            final(self).expanded@ == unfolded_with(old(self).expanded@, opt(*parent_id)),
            final(self).selected == selection(old(self).selected as int, final(self).rows(), id@),
            says(final(self).message, "goal added"@),
    {
        self.unfold(parent_id);
        self.reload(goals);
        self.select_goal(id);
        self.mode = Mode::Normal;
        self.set_message("goal added");
    }

    /// Unfolds a goal, if one is named.
    pub(crate) fn unfold(&mut self, id: &Option<String>)
        requires
            old(self).wf(),
        ensures
            final(self).wf(),
            *final(self) == (App { expanded: final(self).expanded, ..*old(self) }),
            final(self).expanded@ == unfolded_with(old(self).expanded@, opt(*id)),
    {
        if let Some(pid) = id {
            self.expanded.insert(pid.clone());
        }
    }

    /// Selects the row of a goal, if it has one.
    pub(crate) fn select_goal(&mut self, id: &str)
        requires
            old(self).wf(),
        ensures
            final(self).wf(),
            *final(self) == (App { selected: final(self).selected, ..*old(self) }),
            final(self).selected == (match row_position(old(self).rows(), id@) {
                Some(i) => i,
                None => old(self).selected as int,
            }),
    {
        let rows = self.flat_rows();
        if let Some(i) = find_row(&rows, id) {
            self.selected = i;
        }
    }
}

/// The unfolded goals with one more.
pub open spec fn unfolded_with(s: Set<Seq<char>>, parent: Option<Seq<char>>) -> Set<Seq<char>> {
    match parent {
        Some(p) => s.insert(p),
        None => s,
    }
}

/// The row that is selected after a reload that is to select a goal: its row, or
/// the row selected before, within the rows.
pub open spec fn selection(before: int, rows: Seq<Row>, id: Seq<char>) -> int {
    match row_position(rows, id) {
        Some(i) => i,
        None => least(before, rows.len() as int),
    }
}

/// What is written for a new goal: its place among its siblings, and neither a
/// description nor dates.
pub fn new_goal_input(g: &NewGoal, sort_order: i64) -> (r: CreateGoalInput)
    ensures
        r.title@ == g.title@,
        r == (CreateGoalInput {
            title: r.title,
            description: None,
            parent_id: g.parent_id,
            sheet_id: g.sheet_id,
            sort_order: Some(sort_order),
            due_at: None,
            remind_at: None,
            repeat_rule: None,
        }),
{
    CreateGoalInput {
        title: g.title.clone(),
        description: None,
        parent_id: opt_clone(&g.parent_id),
        sheet_id: opt_clone(&g.sheet_id),
        sort_order: Some(sort_order),
        due_at: None,
        remind_at: None,
        repeat_rule: None,
    }
}

// ---------- laws ----------

/// The list shows the goals of the active sheet: every goal of that sheet that has no
/// parent, or whose parent is shown unfolded, has a row, and every row shows a goal of
/// that sheet. While a buffer is shown there are no rows.
pub proof fn law_the_list_shows_the_active_sheet(a: App, g: Goal)
    requires
        a.wf(),
    ensures
        a.buffer_manager.active is Some ==> a.rows().len() == 0,
        forall|i: int|
            0 <= i < a.rows().len() ==> {
                let shown = (#[trigger] a.rows()[i]).goal;
                a.goals@.contains(shown) && (a.sheet_manager.active is None || opt(shown.sheet_id)
                    == opt(a.sheet_manager.active))
            },
        a.buffer_manager.active is None && a.goals@.contains(g) && (a.sheet_manager.active is None
            || opt(g.sheet_id) == opt(a.sheet_manager.active)) && (g.parent_id is None || exists|i: int|
            0 <= i < a.rows().len() && a.expanded@.contains((#[trigger] a.rows()[i]).goal.id@) && opt(
                g.parent_id,
            ) == Some(a.rows()[i].goal.id@)) ==> exists|j: int|
            0 <= j < a.rows().len() && (#[trigger] a.rows()[j]).goal == g,
{
    let goals = a.goals@;
    let sheet = opt(a.sheet_manager.active);
    if a.buffer_manager.active is None {
        let rows = visible_rows(goals, sheet, a.expanded@);
        assert(a.rows() == rows);
        assert forall|i: int| 0 <= i < a.rows().len() implies {
            let shown = (#[trigger] a.rows()[i]).goal;
            a.goals@.contains(shown) && (a.sheet_manager.active is None || opt(shown.sheet_id)
                == opt(a.sheet_manager.active))
        } by {
            law_rows_hang_below_their_parents(goals, sheet, a.expanded@, i);
        }
        law_a_sheet_holds_its_goals(goals, sheet, g);
        if goals.contains(g) && (sheet is None || opt(g.sheet_id) == sheet) {
            if exists|i: int|
                0 <= i < rows.len() && a.expanded@.contains((#[trigger] rows[i]).goal.id@) && opt(
                    g.parent_id,
                ) == Some(rows[i].goal.id@) {
                let i = choose|i: int|
                    0 <= i < rows.len() && a.expanded@.contains((#[trigger] rows[i]).goal.id@) && opt(
                        g.parent_id,
                    ) == Some(rows[i].goal.id@);
                law_rows_are_marked(goals, sheet, a.expanded@, i);
                law_rows_show_what_is_unfolded(goals, sheet, a.expanded@, g);
            } else if g.parent_id is None {
                law_rows_show_what_is_unfolded(goals, sheet, a.expanded@, g);
            }
        }
    }
}

/// After a shown goal is unfolded, every goal of the sheet that stands below it has a row;
/// after it is folded, none has.
pub proof fn law_unfolding_shows_what_stands_below(before: App, after: App, i: int, g: Goal)
    requires
        before.wf(),
        0 <= i < before.rows().len(),
        after == (App { expanded: after.expanded, ..before }),
        before.goals@.contains(g),
        before.sheet_manager.active is None || opt(g.sheet_id) == opt(before.sheet_manager.active),
        opt(g.parent_id) == Some(before.rows()[i].goal.id@),
    ensures
        before.rows()[i].has_children,
        after.expanded@ == before.expanded@.insert(before.rows()[i].goal.id@) ==> exists|j: int|
            0 <= j < after.rows().len() && (#[trigger] after.rows()[j]).goal == g,
        after.expanded@ == before.expanded@.remove(before.rows()[i].goal.id@) ==> forall|j: int|
            0 <= j < after.rows().len() ==> (#[trigger] after.rows()[j]).goal != g,
{
    let goals = before.goals@;
    let sheet = opt(before.sheet_manager.active);
    let p = before.rows()[i].goal;
    law_rows_are_marked(goals, sheet, before.expanded@, i);
    assert(goals.contains(g));
    if after.expanded@ == before.expanded@.insert(p.id@) {
        lemma_row_stays(goals, sheet, before.expanded@, p.id@, i);
        let k = choose|k: int|
            0 <= k < after.rows().len() && (#[trigger] after.rows()[k]).goal == p;
        assert(after.expanded@.contains(after.rows()[k].goal.id@));
        law_the_list_shows_the_active_sheet(after, g);
    }
    if after.expanded@ == before.expanded@.remove(p.id@) {
        assert forall|j: int| 0 <= j < after.rows().len() implies (#[trigger] after.rows()[j]).goal
            != g by {
            law_rows_hang_below_their_parents(goals, sheet, after.expanded@, j);
        }
    }
}

/// A row stays when one more goal is unfolded.
proof fn lemma_row_stays(
    goals: Seq<Goal>,
    sheet: Option<Seq<char>>,
    unfolded: Set<Seq<char>>,
    id: Seq<char>,
    i: int,
)
    requires
        unique_ids(goals),
        0 <= i < visible_rows(goals, sheet, unfolded).len(),
    ensures
        exists|k: int|
            0 <= k < visible_rows(goals, sheet, unfolded.insert(id)).len() && (
            #[trigger] visible_rows(goals, sheet, unfolded.insert(id))[k]).goal == visible_rows(
                goals,
                sheet,
                unfolded,
            )[i].goal,
    decreases visible_rows(goals, sheet, unfolded)[i].depth,
{
    let rows = visible_rows(goals, sheet, unfolded);
    let more = unfolded.insert(id);
    let after = visible_rows(goals, sheet, more);
    let g = rows[i].goal;
    law_rows_hang_below_their_parents(goals, sheet, unfolded, i);
    law_a_sheet_holds_its_goals(goals, sheet, g);
    if rows[i].depth > 0 {
        let h = choose|h: int| #[trigger] hangs_below(rows, h, i);
        lemma_row_stays(goals, sheet, unfolded, id, h);
        let k = choose|k: int| 0 <= k < after.len() && (#[trigger] after[k]).goal == rows[h].goal;
        law_rows_are_marked(goals, sheet, more, k);
        law_rows_are_marked(goals, sheet, unfolded, h);
        assert(after[k].expanded);
    }
    law_rows_show_what_is_unfolded(goals, sheet, more, g);
}

/// The days after which a known rule repeats.
pub open spec fn is_interval(rule: Seq<char>, days: int) -> bool {
    ||| rule == "daily"@ && days == 1
    ||| rule == "weekly"@ && days == 7
    ||| rule == "monthly"@ && days == 30
    ||| rule == "yearly"@ && days == 365
}

/// A goal that repeats is never done for good: no key that changes its status completes
/// it. Where it would get done, because it is cycled while in progress or toggled while
/// not done, it is pending again, due some days later, and has no time of completion.
pub proof fn law_a_repeating_goal_comes_up_again(
    c: GoalChange,
    g: Goal,
    now: int,
    now_iso: Seq<char>,
    days: int,
    due: Seq<char>,
)
    requires
        g.repeat_rule is Some,
        is_interval(g.repeat_rule->0@, days),
        rfc3339(now + days * 86400) == Some(due),
    ensures
        cycling(c, g, now, now_iso) || toggling(c, g, now, now_iso) ==> c.goal_id@ == g.id@
            && c.update.status is Some && c.update.status != Some(GoalStatus::Completed),
        (cycling(c, g, now, now_iso) && g.status == GoalStatus::InProgress) || (toggling(
            c,
            g,
            now,
            now_iso,
        ) && g.status != GoalStatus::Completed) ==> {
            &&& c.update.status == Some(GoalStatus::Pending)
            &&& c.update.due_at is Some && c.update.due_at->0 is Some && c.update.due_at->0->0@ == due
            &&& c.update.completed_at == Some(None::<String>)
            &&& c.message@ == "repeated: next due "@ + due
            &&& c.update == (UpdateGoalInput {
                status: c.update.status,
                due_at: c.update.due_at,
                completed_at: c.update.completed_at,
                title: None,
                description: None,
                parent_id: None,
                sort_order: None,
                agent_status: None,
                agent_result: None,
                agent_progress: None,
                metadata: None,
                sheet_id: None,
                remind_at: None,
                repeat_rule: None,
            })
        },
{
    reveal_strlit("daily");
    reveal_strlit("weekly");
    reveal_strlit("monthly");
    reveal_strlit("yearly");
    reveal_strlit("none");
    assert("daily"@[0] != "weekly"@[0]);
    assert("daily"@[0] != "monthly"@[0]);
    assert("daily"@[0] != "yearly"@[0]);
    assert("weekly"@[0] != "monthly"@[0]);
    assert("weekly"@[0] != "yearly"@[0]);
    assert("monthly"@[0] != "yearly"@[0]);
    assert("none"@.len() == 4);
}

/// A change of status that sets nothing else: the time of completion is there exactly
/// for a goal that is done.
pub open spec fn sets_status_alone(u: UpdateGoalInput, s: GoalStatus, now_iso: Seq<char>) -> bool {
    &&& u.status == Some(s)
    &&& u.completed_at is Some
    &&& s == GoalStatus::Completed ==> opt(u.completed_at->0) == Some(now_iso)
    &&& s != GoalStatus::Completed ==> u.completed_at->0 is None
    &&& u == (UpdateGoalInput {
        status: u.status,
        completed_at: u.completed_at,
        due_at: None,
        title: None,
        description: None,
        parent_id: None,
        sort_order: None,
        agent_status: None,
        agent_result: None,
        agent_progress: None,
        metadata: None,
        sheet_id: None,
        remind_at: None,
        repeat_rule: None,
    })
}

/// A goal that does not repeat goes from pending to in progress to done and back to
/// pending as it is cycled; toggling makes it done, or pending where it is done. What an
/// agent has taken becomes pending when it is cycled.
pub proof fn law_statuses_go_round(c: GoalChange, g: Goal, now: int, now_iso: Seq<char>)
    requires
        opt(g.repeat_rule) is None || !(exists|days: int| #[trigger]
            is_interval(g.repeat_rule->0@, days)),
    ensures
        cycling(c, g, now, now_iso) ==> c.goal_id@ == g.id@ && sets_status_alone(
            c.update,
            match g.status {
                GoalStatus::Pending => GoalStatus::InProgress,
                GoalStatus::InProgress => GoalStatus::Completed,
                GoalStatus::Completed => GoalStatus::Pending,
                GoalStatus::AgentMode => GoalStatus::Pending,
            },
            now_iso,
        ),
        toggling(c, g, now, now_iso) ==> c.goal_id@ == g.id@ && sets_status_alone(
            c.update,
            if g.status == GoalStatus::Completed {
                GoalStatus::Pending
            } else {
                GoalStatus::Completed
            },
            now_iso,
        ),
{
    if g.repeat_rule is Some {
        let rule = g.repeat_rule->0@;
        assert(is_interval(rule, 1) || rule != "daily"@);
        assert(is_interval(rule, 7) || rule != "weekly"@);
        assert(is_interval(rule, 30) || rule != "monthly"@);
        assert(is_interval(rule, 365) || rule != "yearly"@);
    }
}

/// A repeating goal that would not get done changes as any other does.
pub proof fn law_repeating_goals_start_and_reopen(c: GoalChange, g: Goal, now: int, now_iso: Seq<char>)
    ensures
        cycling(c, g, now, now_iso) && g.status == GoalStatus::Pending ==> sets_status_alone(
            c.update,
            GoalStatus::InProgress,
            now_iso,
        ) && c.message@ == "status: in progress"@,
        cycling(c, g, now, now_iso) && (g.status == GoalStatus::Completed || g.status
            == GoalStatus::AgentMode) ==> sets_status_alone(c.update, GoalStatus::Pending, now_iso)
            && c.message@ == "status: pending"@,
        toggling(c, g, now, now_iso) && g.status == GoalStatus::Completed ==> sets_status_alone(
            c.update,
            GoalStatus::Pending,
            now_iso,
        ),
{
}

/// After a reload that is to select a goal, its row is selected where it has one;
/// otherwise the selection stays, or falls on the row behind the last one.
pub proof fn law_the_added_goal_is_selected(before: int, rows: Seq<Row>, id: Seq<char>)
    requires
        0 <= before,
    ensures
        (exists|i: int| 0 <= i < rows.len() && (#[trigger] rows[i]).goal.id@ == id) ==> 0
            <= selection(before, rows, id) < rows.len() && rows[selection(before, rows, id)].goal.id@
            == id,
        (forall|i: int| 0 <= i < rows.len() ==> (#[trigger] rows[i]).goal.id@ != id) ==> (
        if before <= rows.len() {
            selection(before, rows, id) == before
        } else {
            selection(before, rows, id) == rows.len()
        }),
{
    lemma_row_position(rows, id);
}

/// Unfolding one goal leaves all others as they are.
pub proof fn law_unfolding_keeps_the_rest(s: Set<Seq<char>>, parent: Option<Seq<char>>, x: Seq<char>)
    ensures
        unfolded_with(s, parent).contains(x) <==> s.contains(x) || parent == Some(x),
{
}

/// An entered text is taken without the blanks around it; a blank one clears the field.
pub proof fn law_blank_entries_clear(l: Seq<char>, m: Seq<char>, r: Seq<char>)
    requires
        is_blank(l),
        is_blank(r),
        m.len() > 0 ==> !is_white_space(m[0]) && !is_white_space(m.last()),
    ensures
        entered(l + m + r) == if m.len() > 0 {
            Some(m)
        } else {
            None
        },
{
    law_trimming_cuts_blanks_at_both_ends(l, m, r);
}

/// Showing the details of the selected goal unfolds it and hides those of any other; doing
/// it again folds the goal and shows none. The goals stay as they are.
pub proof fn law_details_are_shown_and_hidden(after: App, before: App, g: Goal, x: Seq<char>)
    requires
        after.details_toggled(before),
        before.current() == Some(g),
    ensures
        after.goals == before.goals && after.selected == before.selected && after.mode
            == before.mode,
        opt(before.detailed) != Some(g.id@) ==> opt(after.detailed) == Some(g.id@)
            && after.expanded@.contains(g.id@),
        opt(before.detailed) == Some(g.id@) ==> after.detailed is None && !after.expanded@.contains(
            g.id@,
        ),
        x != g.id@ ==> (after.expanded@.contains(x) <==> before.expanded@.contains(x)),
{
}

/// A status is named in messages by its own word.
pub proof fn law_statuses_are_named()
    ensures
        status_words(GoalStatus::Pending) == "status: pending"@,
        status_words(GoalStatus::InProgress) == "status: in progress"@,
        status_words(GoalStatus::Completed) == "status: done"@,
        status_words(GoalStatus::AgentMode) == "status: agent"@,
{
}

/// The current goal is that of the selected row; behind the last row there is none.
pub proof fn law_the_selected_row_is_current(a: App)
    ensures
        a.selected < a.rows().len() ==> a.current() == Some(a.rows()[a.selected as int].goal),
        a.selected >= a.rows().len() ==> a.current() is None,
{
}

/// The rules that may be entered are those that lead to a due date.
pub proof fn law_known_rules_may_be_entered(rule: Seq<char>)
    ensures
        is_rule(rule) <==> crate::time::repeat_days(rule) is Some,
{
}

} // verus!
