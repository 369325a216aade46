//! What the keys do in each mode. A handler changes the state where that is all
//! there is to do, and names the operation that has to follow where more is.

use crate::app::{says, typed, App};
use crate::config::{KeyBinding, Keybinds};
use crate::help::around;
use crate::keys::{
    buffer_name, control_char, is_control, key_label, key_to_buffer_name, key_to_panel_name,
    panel_name, plain_name, KeyCode, KeyEvent,
};
use crate::plugin_ui::{modal_text, moved_cursor, toggled, with_text};
use crate::settings::field_at;
use crate::text::{concat, from_chars, opt, opt_clone, opt_or_empty, str_eq, take, to_chars, trim, trimmed};
use crate::types::{
    empty_input, InputBuffer, InputView, Mode, PluginCall, PluginCommand, PluginModalKind,
    PluginPane,
};
use vstd::prelude::*;

verus! {

/// The operation that has to follow a key.
#[derive(Debug)]
pub enum Command {
    Nothing,
    Quit,
    CycleStatus,
    ToggleComplete,
    OpenHelp,
    OpenPluginManager,
    OpenAgentPicker { goal_id: String },
    OpenCommandMode,
    OpenGlobalConfig,
    OpenSheetPicker,
    /// Log that a sync was asked for and none is set up.
    LogSyncInactive,
    /// Offer a key to a buffer of a plugin.
    BufferKey { buffer: String, name: String },
    /// Offer a key to the panel of a plugin.
    PanelKey { name: String },
    CommitAddGoal,
    CommitEditTitle,
    CommitEditDescription,
    CommitEditDue,
    CommitEditReminder,
    CommitEditRepeat,
    CommitAssignRange,
    CommitAddSheet,
    ConfirmDelete,
    ConfirmDeleteSheet,
    ConfirmPurge,
    ConfirmMove,
    StartAgentRun { goal_id: String },
    SelectSheet,
    StartPluginSearch,
    TogglePluginActive,
    UninstallPlugin,
    UpdateAllPlugins,
    OpenConfigure,
    ToggleService,
    CommitConfigField,
    CycleConfigField { delta: i32 },
    CommitGlobalField,
    CallPlugin { plugin: String, call: PluginCall },
    RunCommand(PluginCommand),
    SubmitModal,
    CancelModal,
}

// ---------- editing ----------

/// What a key does to an input line.
#[derive(Clone, Copy, Debug, PartialEq, Eq, Structural)]
pub enum Edit {
    Nothing,
    Backspace,
    Left,
    Right,
    Clear,
    Push(char),
}

/// What a key does to an input line.
pub open spec fn edit_of(key: KeyEvent) -> Edit {
    match key.code {
        KeyCode::Backspace => Edit::Backspace,
        KeyCode::Left => Edit::Left,
        KeyCode::Right => Edit::Right,
        KeyCode::Char(c) => if c == 'u' && key.modifiers.control {
            Edit::Clear
        } else if is_control(c) {
            Edit::Nothing
        } else {
            Edit::Push(c)
        },
        _ => Edit::Nothing,
    }
}

/// An input line after an edit.
pub open spec fn edited_view(v: InputView, e: Edit) -> InputView {
    match e {
        Edit::Nothing => v,
        Edit::Backspace => if v.before.len() > 0 {
            InputView { before: v.before.drop_last(), ..v }
        } else {
            v
        },
        Edit::Left => if v.before.len() > 0 {
            InputView { before: v.before.drop_last(), after: seq![v.before.last()] + v.after }
        } else {
            v
        },
        Edit::Right => if v.after.len() > 0 {
            InputView { before: v.before.push(v.after[0]), after: v.after.skip(1) }
        } else {
            v
        },
        Edit::Clear => empty_input(),
        Edit::Push(c) => InputView { before: v.before.push(c), ..v },
    }
}

/// What a key does to an input line.
pub fn key_edit(key: KeyEvent) -> (r: Edit)
    ensures
        r == edit_of(key),
{
    match key.code {
        KeyCode::Backspace => Edit::Backspace,
        KeyCode::Left => Edit::Left,
        KeyCode::Right => Edit::Right,
        KeyCode::Char(c) => {
            if c == 'u' && key.modifiers.control {
                Edit::Clear
            } else if control_char(c) {
                Edit::Nothing
            } else {
                Edit::Push(c)
            }
        },
        _ => Edit::Nothing,
    }
}

/// Edits an input line by a key.
pub fn edit_input(input: &mut InputBuffer, key: KeyEvent)
    requires
        old(input).wf(),
    ensures
        final(input).wf(),
        final(input)@ == edited_view(old(input)@, edit_of(key)),
{
    match key_edit(key) {
        Edit::Nothing => {},
        Edit::Backspace => {
            input.backspace();
        },
        Edit::Left => {
            input.move_left();
        },
        Edit::Right => {
            input.move_right();
        },
        Edit::Clear => {
            input.clear();
        },
        Edit::Push(c) => {
            input.push_char(c);
        },
    }
}

/// Whether the input line was edited by a key, and nothing else changed.
pub open spec fn input_edited(after: App, before: App, key: KeyEvent) -> bool {
    &&& after == (App { input: after.input, ..before })
    &&& after.input@ == edited_view(before.input@, edit_of(key))
}

/// A typed character and a deletion leave the line as it was.
pub proof fn law_backspace_undoes_typing(v: InputView, c: char)
    ensures
        edited_view(edited_view(v, Edit::Push(c)), Edit::Backspace) == v,
{
    assert(v.before.push(c).drop_last() =~= v.before);
}

// ---------- common effects ----------

/// Whether the goal list is shown and the input empty, and nothing else changed.
pub open spec fn cancelled(after: App, before: App) -> bool {
    &&& after == (App { mode: Mode::Normal, input: after.input, ..before })
    &&& after.input@ == empty_input()
}

/// Whether a mode was begun with a text in the input, and nothing else changed.
pub open spec fn begun(after: App, before: App, text: Seq<char>, mode: Mode) -> bool {
    &&& after == (App { input: after.input, mode, ..before })
    &&& after.input@ == typed(text)
}

/// Whether a key is a character.
pub open spec fn is_char(key: KeyEvent, c: char) -> bool {
    key.code == KeyCode::Char(c)
}

/// A position one step up.
pub open spec fn up(i: int) -> int {
    if i > 0 {
        i - 1
    } else {
        i
    }
}

/// A position one step down in a list.
pub open spec fn down(i: int, len: int) -> int {
    if i + 1 < len {
        i + 1
    } else {
        i
    }
}

/// The rows of a list that a position can reach: a position is a machine number.
pub open spec fn reachable(rows: int) -> int {
    if rows <= usize::MAX {
        rows
    } else {
        usize::MAX + 1
    }
}

fn step_up(i: usize) -> (r: usize)
    ensures
        r == up(i as int),
{
    if i > 0 {
        i - 1
    } else {
        i
    }
}

fn step_down(i: usize, len: usize) -> (r: usize)
    ensures
        r == down(i as int, len as int),
{
    if len > 0 && i < len - 1 {
        i + 1
    } else {
        i
    }
}

fn step_down_rows(i: usize, rows: u128) -> (r: usize)
    ensures
        r == down(i as int, reachable(rows as int)),
{
    if i < usize::MAX && (i as u128) + 1 < rows {
        i + 1
    } else {
        i
    }
}

/// Whether a key moves up a list.
pub open spec fn is_up(key: KeyEvent) -> bool {
    key.code == KeyCode::Up || is_char(key, 'k')
}

/// Whether a key moves down a list.
pub open spec fn is_down(key: KeyEvent) -> bool {
    key.code == KeyCode::Down || is_char(key, 'j')
}

/// Whether a key quits from anywhere.
pub open spec fn quits(key: KeyEvent) -> bool {
    key.modifiers.control && (is_char(key, 'c') || is_char(key, 'd'))
}

fn is_quit(key: KeyEvent) -> (r: bool)
    ensures
        r == quits(key),
{
    key.modifiers.control && (key.code == KeyCode::Char('c') || key.code == KeyCode::Char('d'))
}

/// Whether an optional binding matches a key.
pub open spec fn bound(b: Option<KeyBinding>, key: KeyEvent) -> bool {
    match b {
        Some(k) => k.matched_by(key),
        None => false,
    }
}

fn opt_matches(b: &Option<KeyBinding>, key: KeyEvent) -> (r: bool)
    ensures
        r == bound(*b, key),
{
    match b {
        Some(k) => k.matches(key),
        None => false,
    }
}

// ---------- the goal list ----------

/// The commands behind the leader key.
#[derive(Clone, Copy, Debug, PartialEq, Eq, Structural)]
pub enum LeaderAction {
    Cancel,
    Quit,
    NewGoal,
    ShowDetails,
    Help,
    Plugins,
    RunAgent,
    AssignRange,
    Commands,
    GlobalConfig,
    Sync,
    Sheets,
    Stats,
    OpenResult,
    Unknown,
}

/// The command that a key behind the leader means: the first binding that
/// matches.
pub open spec fn leader_action(b: Keybinds, key: KeyEvent) -> LeaderAction {
    if key.code == KeyCode::Esc {
        LeaderAction::Cancel
    } else if is_char(key, 'q') {
        LeaderAction::Quit
    } else if b.new_goal.matched_by(key) {
        LeaderAction::NewGoal
    } else if b.show_details.matched_by(key) {
        LeaderAction::ShowDetails
    } else if b.help.matched_by(key) {
        LeaderAction::Help
    } else if b.plugins.matched_by(key) {
        LeaderAction::Plugins
    } else if b.run_agent.matched_by(key) {
        LeaderAction::RunAgent
    } else if bound(b.assign_range, key) {
        LeaderAction::AssignRange
    } else if b.commands.matched_by(key) {
        LeaderAction::Commands
    } else if b.global_config.matched_by(key) {
        LeaderAction::GlobalConfig
    } else if b.sync.matched_by(key) {
        LeaderAction::Sync
    } else if b.sheets.matched_by(key) {
        LeaderAction::Sheets
    } else if bound(b.stats, key) {
        LeaderAction::Stats
    } else if bound(b.open_result, key) {
        LeaderAction::OpenResult
    } else {
        LeaderAction::Unknown
    }
}

fn leader_key(b: &Keybinds, key: KeyEvent) -> (r: LeaderAction)
    ensures
        r == leader_action(*b, key),
{
    if key.code == KeyCode::Esc {
        LeaderAction::Cancel
    } else if key.code == KeyCode::Char('q') {
        LeaderAction::Quit
    } else if b.new_goal.matches(key) {
        LeaderAction::NewGoal
    } else if b.show_details.matches(key) {
        LeaderAction::ShowDetails
    } else if b.help.matches(key) {
        LeaderAction::Help
    } else if b.plugins.matches(key) {
        LeaderAction::Plugins
    } else if b.run_agent.matches(key) {
        LeaderAction::RunAgent
    } else if opt_matches(&b.assign_range, key) {
        LeaderAction::AssignRange
    } else if b.commands.matches(key) {
        LeaderAction::Commands
    } else if b.global_config.matches(key) {
        LeaderAction::GlobalConfig
    } else if b.sync.matches(key) {
        LeaderAction::Sync
    } else if b.sheets.matches(key) {
        LeaderAction::Sheets
    } else if opt_matches(&b.stats, key) {
        LeaderAction::Stats
    } else if opt_matches(&b.open_result, key) {
        LeaderAction::OpenResult
    } else {
        LeaderAction::Unknown
    }
}

/// What a command behind the leader does.
pub open spec fn leader_done(after: App, before: App, key: KeyEvent, r: Command) -> bool {
    match leader_action(before.keybinds, key) {
        LeaderAction::Cancel => after == before && r is Nothing,
        LeaderAction::Quit => after == before && r is Quit,
        LeaderAction::NewGoal => after == (App {
            input: after.input,
            mode: (Mode::AddGoal {
                parent_id: match before.current() {
                    Some(g) => Some(g.id),
                    None => None,
                },
            }),
            ..before
        }) && after.input@ == empty_input() && r is Nothing,
        LeaderAction::ShowDetails => after.details_toggled(before) && r is Nothing,
        LeaderAction::Help => after == before && r is OpenHelp,
        LeaderAction::Plugins => after == before && r is OpenPluginManager,
        LeaderAction::RunAgent => after == before && (match before.current() {
            Some(g) => r == (Command::OpenAgentPicker { goal_id: g.id }),
            None => r is Nothing,
        }),
        LeaderAction::AssignRange => begun(after, before, "@"@, Mode::AssignRange) && r is Nothing,
        LeaderAction::Commands => after == before && r is OpenCommandMode,
        LeaderAction::GlobalConfig => after == before && r is OpenGlobalConfig,
        LeaderAction::Sync => after.sync_requested(before) && (if before.sync_attached {
            r is Nothing
        } else {
            r is LogSyncInactive
        }),
        LeaderAction::Sheets => after == before && r is OpenSheetPicker,
        LeaderAction::Stats => after == (App { mode: Mode::Stats, ..before }) && r is Nothing,
        LeaderAction::OpenResult => after == (match before.current() {
            Some(g) => App { mode: Mode::FullResult { goal_id: g.id, scroll: 0 }, ..before },
            None => before,
        }) && r is Nothing,
        LeaderAction::Unknown => after == (App { message: after.message, ..before }) && says(
            after.message,
            "unknown leader command ("@ + plain_name(key.code) + ")"@,
        ) && r is Nothing,
    }
}

/// The keys of the goal list.
#[derive(Clone, Copy, Debug, PartialEq, Eq, Structural)]
pub enum BareAction {
    CycleStatus,
    Delete,
    EditTitle,
    EditDescription,
    ToggleComplete,
    Move,
    EditDue,
    EditReminder,
    EditRepeat,
    AssignRange,
    Down,
    Up,
    Disarm,
    Nothing,
}

/// What a key of the goal list means: the first binding that matches, else the
/// fixed keys.
pub open spec fn bare_action(b: Keybinds, key: KeyEvent) -> BareAction {
    if b.cycle_status.matched_by(key) {
        BareAction::CycleStatus
    } else if b.delete.matched_by(key) {
        BareAction::Delete
    } else if b.edit_title.matched_by(key) {
        BareAction::EditTitle
    } else if b.edit_description.matched_by(key) {
        BareAction::EditDescription
    } else if b.toggle_complete.matched_by(key) {
        BareAction::ToggleComplete
    } else if b.move_goal.matched_by(key) {
        BareAction::Move
    } else if bound(b.edit_due, key) {
        BareAction::EditDue
    } else if bound(b.edit_reminder, key) {
        BareAction::EditReminder
    } else if bound(b.edit_repeat, key) {
        BareAction::EditRepeat
    } else if is_char(key, '@') {
        BareAction::AssignRange
    } else if is_down(key) {
        BareAction::Down
    } else if is_up(key) {
        BareAction::Up
    } else if key.code == KeyCode::Esc {
        BareAction::Disarm
    } else {
        BareAction::Nothing
    }
}

fn bare_key(b: &Keybinds, key: KeyEvent) -> (r: BareAction)
    ensures
        r == bare_action(*b, key),
{
    if b.cycle_status.matches(key) {
        BareAction::CycleStatus
    } else if b.delete.matches(key) {
        BareAction::Delete
    } else if b.edit_title.matches(key) {
        BareAction::EditTitle
    } else if b.edit_description.matches(key) {
        BareAction::EditDescription
    } else if b.toggle_complete.matches(key) {
        BareAction::ToggleComplete
    } else if b.move_goal.matches(key) {
        BareAction::Move
    } else if opt_matches(&b.edit_due, key) {
        BareAction::EditDue
    } else if opt_matches(&b.edit_reminder, key) {
        BareAction::EditReminder
    } else if opt_matches(&b.edit_repeat, key) {
        BareAction::EditRepeat
    } else if key.code == KeyCode::Char('@') {
        BareAction::AssignRange
    } else if key.code == KeyCode::Down || key.code == KeyCode::Char('j') {
        BareAction::Down
    } else if key.code == KeyCode::Up || key.code == KeyCode::Char('k') {
        BareAction::Up
    } else if key.code == KeyCode::Esc {
        BareAction::Disarm
    } else {
        BareAction::Nothing
    }
}

/// What beginning to edit the selected goal does.
pub open spec fn edits(after: App, before: App, action: BareAction) -> bool {
    match before.current() {
        Some(g) => match action {
            BareAction::EditTitle => begun(
                after,
                before,
                g.title@,
                Mode::EditTitle { goal_id: g.id },
            ),
            BareAction::EditDescription => begun(
                after,
                before,
                opt_or_empty(g.description),
                Mode::EditDescription { goal_id: g.id },
            ),
            BareAction::EditDue => begun(
                after,
                before,
                opt_or_empty(g.due_at),
                Mode::EditDue { goal_id: g.id },
            ),
            BareAction::EditReminder => begun(
                after,
                before,
                opt_or_empty(g.remind_at),
                Mode::EditReminder { goal_id: g.id },
            ),
            BareAction::EditRepeat => begun(
                after,
                before,
                opt_or_empty(g.repeat_rule),
                Mode::EditRepeat { goal_id: g.id },
            ),
            _ => false,
        },
        None => after == before,
    }
}

/// What a key of the goal list does.
pub open spec fn bare_done(after: App, before: App, key: KeyEvent, r: Command) -> bool {
    let action = bare_action(before.keybinds, key);
    match action {
        BareAction::CycleStatus => after == before && r is CycleStatus,
        BareAction::ToggleComplete => after == before && r is ToggleComplete,
        BareAction::Delete => after == (match before.current() {
            Some(g) => App { mode: Mode::ConfirmDelete { goal_id: g.id }, ..before },
            None => before,
        }) && r is Nothing,
        BareAction::Move => (match before.current() {
            Some(g) => after.picks_move(before, g.id),
            None => after == before,
        }) && r is Nothing,
        BareAction::AssignRange => begun(after, before, "@"@, Mode::AssignRange) && r is Nothing,
        BareAction::Down => after == (App { selected: after.selected, ..before })
            && after.selected == (if before.selected < before.rows().len() {
            before.selected + 1
        } else {
            before.selected as int
        }) && r is Nothing,
        BareAction::Up => after == (App { selected: after.selected, ..before }) && after.selected
            == up(before.selected as int) && r is Nothing,
        BareAction::Disarm => after == (App { leader_pending: false, ..before }) && r is Nothing,
        BareAction::Nothing => after == before && r is Nothing,
        _ => edits(after, before, action) && r is Nothing,
    }
}

/// The buffer of a plugin that gets a key first, and the name of the key: the
/// buffer that is shown, if it is there.
pub open spec fn offered(a: App, key: KeyEvent) -> Option<(Seq<char>, Seq<char>)> {
    match (opt(a.buffer_manager.active), buffer_name(key)) {
        (Some(b), Some(n)) => if a.buffer_manager.buffers@.contains_key(b) {
            Some((b, n))
        } else {
            None
        },
        _ => None,
    }
}

/// What a key does over the goal list.
pub open spec fn normal_done(after: App, before: App, key: KeyEvent, r: Command) -> bool {
    if quits(key) {
        after == before && r is Quit
    } else if before.keybinds.leader.matched_by(key) {
        after == (App { leader_pending: true, ..before }) && r is Nothing
    } else if before.leader_pending {
        leader_done(after, App { leader_pending: false, ..before }, key, r)
    } else {
        match offered(before, key) {
            Some((b, n)) => after == before && (r matches Command::BufferKey { buffer, name }
                && buffer@ == b && name@ == n),
            None => bare_done(after, before, key, r),
        }
    }
}

/// What follows a key that was offered to a buffer: a key that the buffer did
/// not handle is one of the goal list, but for Esc, which does nothing, and `q`,
/// which leaves the buffer.
pub open spec fn buffer_done(
    after: App,
    before: App,
    key: KeyEvent,
    name: Seq<char>,
    handled: bool,
    r: Command,
) -> bool {
    if handled || name == "esc"@ {
        after == before && r is Nothing
    } else if name == "q"@ {
        after == (App {
            buffer_manager: (crate::buffers::BufferManager {
                active: None,
                ..before.buffer_manager
            }),
            ..before
        }) && r is Nothing
    } else {
        bare_done(after, before, key, r)
    }
}

impl App {
    fn handle_leader_key(&mut self, key: KeyEvent) -> (r: Command)
        requires
            old(self).wf(),
        ensures
            final(self).wf(),
            leader_done(*final(self), *old(self), key, r),
    {
        match leader_key(&self.keybinds, key) {
            LeaderAction::Cancel => Command::Nothing,
            LeaderAction::Quit => Command::Quit,
            LeaderAction::NewGoal => {
                let parent_id = match self.selected_row() {
                    Some(row) => Some(row.goal.id.clone()),
                    None => None,
                };
                self.start_add_goal(parent_id);
                Command::Nothing
            },
            LeaderAction::ShowDetails => {
                self.toggle_details();
                Command::Nothing
            },
            LeaderAction::Help => Command::OpenHelp,
            LeaderAction::Plugins => Command::OpenPluginManager,
            LeaderAction::RunAgent => match self.selected_row() {
                Some(row) => Command::OpenAgentPicker { goal_id: row.goal.id.clone() },
                None => Command::Nothing,
            },
            LeaderAction::AssignRange => {
                self.start_assign_range();
                Command::Nothing
            },
            LeaderAction::Commands => Command::OpenCommandMode,
            LeaderAction::GlobalConfig => Command::OpenGlobalConfig,
            LeaderAction::Sync => {
                if self.request_sync() {
                    Command::LogSyncInactive
                } else {
                    Command::Nothing
                }
            },
            LeaderAction::Sheets => Command::OpenSheetPicker,
            LeaderAction::Stats => {
                self.open_stats();
                Command::Nothing
            },
            LeaderAction::OpenResult => {
                self.open_full_result();
                Command::Nothing
            },
            LeaderAction::Unknown => {
                let a = concat("unknown leader command (", key_label(&key).as_str());
                let text = concat(a.as_str(), ")");
                self.set_message(text.as_str());
                Command::Nothing
            },
        }
    }

    /// Shows the statistics.
    pub fn open_stats(&mut self)
        ensures
            *final(self) == (App { mode: Mode::Stats, ..*old(self) }),
    {
        self.mode = Mode::Stats;
    }

    /// Shows the full agent result of the selected goal, from its start.
    pub fn open_full_result(&mut self)
        requires
            old(self).wf(),
        ensures
            final(self).wf(),
            *final(self) == (match old(self).current() {
                Some(g) => App {
                    mode: Mode::FullResult { goal_id: g.id, scroll: 0 },
                    ..*old(self)
                },
                None => *old(self),
            }),
    {
        if let Some(row) = self.selected_row() {
            self.mode = Mode::FullResult { goal_id: row.goal.id.clone(), scroll: 0 };
        }
    }

    fn begin_edit(&mut self, action: BareAction)
        requires
            old(self).wf(),
            action == BareAction::EditTitle || action == BareAction::EditDescription || action
                == BareAction::EditDue || action == BareAction::EditReminder || action
                == BareAction::EditRepeat,
        ensures
            final(self).wf(),
            edits(*final(self), *old(self), action),
    {
        match action {
            BareAction::EditTitle => {
                self.start_edit_title();
            },
            BareAction::EditDescription => {
                self.start_edit_description();
            },
            BareAction::EditDue => {
                self.start_edit_due();
            },
            BareAction::EditReminder => {
                self.start_edit_reminder();
            },
            _ => {
                self.start_edit_repeat();
            },
        }
    }

    #[verifier::rlimit(40)]
    fn handle_bare_key(&mut self, key: KeyEvent) -> (r: Command)
        requires
            old(self).wf(),
        ensures
            final(self).wf(),
            bare_done(*final(self), *old(self), key, r),
    {
        let action = bare_key(&self.keybinds, key);
        match action {
            BareAction::CycleStatus => Command::CycleStatus,
            BareAction::ToggleComplete => Command::ToggleComplete,
            BareAction::Delete => {
                self.start_delete();
                Command::Nothing
            },
            BareAction::Move => {
                if let Some(row) = self.selected_row() {
                    self.open_move_picker(row.goal.id.clone());
                }
                Command::Nothing
            },
            BareAction::AssignRange => {
                self.start_assign_range();
                Command::Nothing
            },
            BareAction::Down => {
                self.move_down();
                Command::Nothing
            },
            BareAction::Up => {
                self.move_up();
                Command::Nothing
            },
            BareAction::Disarm => {
                self.leader_pending = false;
                Command::Nothing
            },
            BareAction::Nothing => Command::Nothing,
            _ => {
                self.begin_edit(action);
                Command::Nothing
            },
        }
    }

    /// Handles a key over the goal list.
    pub fn handle_normal_key(&mut self, key: KeyEvent) -> (r: Command)
        requires
            old(self).wf(),
        ensures
            final(self).wf(),
            normal_done(*final(self), *old(self), key, r),
    {
        if is_quit(key) {
            return Command::Quit;
        }
        if self.keybinds.leader.matches(key) {
            self.leader_pending = true;
            return Command::Nothing;
        }
        if self.leader_pending {
            self.leader_pending = false;
            return self.handle_leader_key(key);
        }
        if let Some(buffer) = opt_clone(&self.buffer_manager.active) {
            if self.buffer_manager.buffers.contains_key(buffer.as_str()) {
                if let Some(name) = key_to_buffer_name(key) {
                    return Command::BufferKey { buffer, name };
                }
            }
        }
        self.handle_bare_key(key)
    }

    /// Goes on with a key that was offered to a buffer under a name.
    pub fn handle_buffer_key(&mut self, key: KeyEvent, name: &str, handled: bool) -> (r: Command)
        requires
            old(self).wf(),
        ensures
            final(self).wf(),
            buffer_done(*final(self), *old(self), key, name@, handled, r),
    {
        if handled || str_eq(name, "esc") {
            return Command::Nothing;
        }
        if str_eq(name, "q") {
            self.buffer_manager.select_buffer(None);
            return Command::Nothing;
        }
        self.handle_bare_key(key)
    }
}

// ---------- input lines ----------

/// The commit that ends the input of a mode.
pub open spec fn commit_of(mode: Mode) -> Command {
    match mode {
        Mode::AddGoal { .. } => Command::CommitAddGoal,
        Mode::EditTitle { .. } => Command::CommitEditTitle,
        Mode::EditDescription { .. } => Command::CommitEditDescription,
        Mode::EditDue { .. } => Command::CommitEditDue,
        Mode::EditReminder { .. } => Command::CommitEditReminder,
        Mode::EditRepeat { .. } => Command::CommitEditRepeat,
        _ => Command::Nothing,
    }
}

/// What a key does in an input line of a goal.
pub open spec fn input_done(after: App, before: App, key: KeyEvent, r: Command) -> bool {
    if key.code == KeyCode::Esc {
        cancelled(after, before) && r is Nothing
    } else if key.code == KeyCode::Enter {
        after == before && r == commit_of(before.mode)
    } else if key.code == KeyCode::BackTab {
        after == (App { input: after.input, ..before }) && after.input@ == (InputView {
            before: Seq::empty(),
            after: before.input.text@,
        }) && r is Nothing
    } else {
        input_edited(after, before, key) && r is Nothing
    }
}

/// What a key does in an input line that Enter ends by a command.
pub open spec fn line_done(
    after: App,
    before: App,
    key: KeyEvent,
    r: Command,
    commit: Command,
) -> bool {
    if key.code == KeyCode::Enter {
        after == before && r == commit
    } else {
        input_edited(after, before, key) && r is Nothing
    }
}

/// What a key does in the plugin manager.
pub open spec fn manager_done(
    after: App,
    before: App,
    key: KeyEvent,
    pane: PluginPane,
    r: Command,
) -> bool {
    let list = Mode::PluginManager { pane: PluginPane::List };
    if quits(key) {
        after == before && r is Quit
    } else if pane is Install {
        if key.code == KeyCode::Esc {
            after == (App { input: after.input, mode: list, ..before }) && after.input@
                == empty_input() && r is Nothing
        } else if key.code == KeyCode::Enter {
            after == before && (if trimmed(before.input.text@).len() > 0 {
                r is StartPluginSearch
            } else {
                r is Nothing
            })
        } else {
            input_edited(after, before, key) && r is Nothing
        }
    } else if key.code == KeyCode::Esc {
        cancelled(after, before) && r is Nothing
    } else if is_char(key, '?') {
        after == (App { mode: Mode::PluginHelp, ..before }) && r is Nothing
    } else if is_char(key, 'i') || is_char(key, 'n') {
        after == (App {
            input: after.input,
            mode: Mode::PluginManager { pane: PluginPane::Install },
            ..before
        }) && after.input@ == empty_input() && r is Nothing
    } else if is_up(key) {
        after == (App { plugin_selected: after.plugin_selected, ..before }) && after.plugin_selected
            == up(before.plugin_selected as int) && r is Nothing
    } else if is_down(key) {
        after == (App { plugin_selected: after.plugin_selected, ..before }) && after.plugin_selected
            == down(before.plugin_selected as int, before.installed_plugins@.len() as int) && r
            is Nothing
    } else {
        after == before && r == manager_command(key)
    }
}

/// The operation that a key of the list of plugins stands for.
pub open spec fn manager_command(key: KeyEvent) -> Command {
    if key.code == KeyCode::Enter || is_char(key, 'a') || is_char(key, ' ') {
        Command::TogglePluginActive
    } else if is_char(key, 'd') || key.code == KeyCode::Delete {
        Command::UninstallPlugin
    } else if is_char(key, 'u') {
        Command::UpdateAllPlugins
    } else if is_char(key, 'c') {
        Command::OpenConfigure
    } else if is_char(key, 's') {
        Command::ToggleService
    } else {
        Command::Nothing
    }
}

fn manager_key(key: KeyEvent) -> (r: Command)
    ensures
        r == manager_command(key),
{
    match key.code {
        KeyCode::Enter => Command::TogglePluginActive,
        KeyCode::Delete => Command::UninstallPlugin,
        KeyCode::Char(c) => {
            if c == 'a' || c == ' ' {
                Command::TogglePluginActive
            } else if c == 'd' {
                Command::UninstallPlugin
            } else if c == 'u' {
                Command::UpdateAllPlugins
            } else if c == 'c' {
                Command::OpenConfigure
            } else if c == 's' {
                Command::ToggleService
            } else {
                Command::Nothing
            }
        },
        _ => Command::Nothing,
    }
}

impl App {
    /// Handles a key in an input line of a goal.
    pub fn handle_input_key(&mut self, key: KeyEvent) -> (r: Command)
        requires
            old(self).wf(),
        ensures
            final(self).wf(),
            input_done(*final(self), *old(self), key, r),
    {
        if key.code == KeyCode::Esc {
            self.cancel();
            return Command::Nothing;
        }
        if key.code == KeyCode::Enter {
            return match &self.mode {
                Mode::AddGoal { .. } => Command::CommitAddGoal,
                Mode::EditTitle { .. } => Command::CommitEditTitle,
                Mode::EditDescription { .. } => Command::CommitEditDescription,
                Mode::EditDue { .. } => Command::CommitEditDue,
                Mode::EditReminder { .. } => Command::CommitEditReminder,
                Mode::EditRepeat { .. } => Command::CommitEditRepeat,
                _ => Command::Nothing,
            };
        }
        if key.code == KeyCode::BackTab {
            self.input.move_start();
            return Command::Nothing;
        }
        edit_input(&mut self.input, key);
        Command::Nothing
    }

    /// Handles a key in the plugin manager.
    #[verifier::rlimit(30)]
    pub fn handle_plugin_manager_key(&mut self, key: KeyEvent, pane: PluginPane) -> (r: Command)
        requires
            old(self).wf(),
        ensures
            final(self).wf(),
            manager_done(*final(self), *old(self), key, pane, r),
    {
        if is_quit(key) {
            return Command::Quit;
        }
        if pane == PluginPane::Install {
            if key.code == KeyCode::Esc {
                self.input.clear();
                self.mode = Mode::PluginManager { pane: PluginPane::List };
                return Command::Nothing;
            }
            if key.code == KeyCode::Enter {
                let query = trim(self.input.text.as_str());
                if query.as_str().is_empty() {
                    return Command::Nothing;
                }
                return Command::StartPluginSearch;
            }
            edit_input(&mut self.input, key);
            return Command::Nothing;
        }
        if key.code == KeyCode::Esc {
            self.cancel();
            return Command::Nothing;
        }
        if key.code == KeyCode::Char('?') {
            self.mode = Mode::PluginHelp;
            return Command::Nothing;
        }
        if key.code == KeyCode::Char('i') || key.code == KeyCode::Char('n') {
            self.start_install_mode();
            return Command::Nothing;
        }
        if key.code == KeyCode::Up || key.code == KeyCode::Char('k') {
            self.plugin_selected = step_up(self.plugin_selected);
            return Command::Nothing;
        }
        if key.code == KeyCode::Down || key.code == KeyCode::Char('j') {
            self.plugin_selected = step_down(self.plugin_selected, self.installed_plugins.len());
            return Command::Nothing;
        }
        manager_key(key)
    }

    /// Handles a key on the help page of the plugin manager.
    pub fn handle_plugin_help_key(&mut self, key: KeyEvent) -> (r: Command)
        requires
            old(self).wf(),
        ensures
            final(self).wf(),
            plugin_help_done(*final(self), *old(self), key, r),
    {
        let closes = match key.code {
            KeyCode::Esc => true,
            KeyCode::Enter => true,
            KeyCode::Char(c) => c == 'q' || c == '?' || c == 'h',
            _ => false,
        };
        if closes {
            self.mode = Mode::PluginManager { pane: PluginPane::List };
        }
        Command::Nothing
    }
}

/// What a key does on the help page of the plugin manager.
pub open spec fn plugin_help_done(after: App, before: App, key: KeyEvent, r: Command) -> bool {
    let closes = key.code == KeyCode::Esc || key.code == KeyCode::Enter || is_char(key, 'q')
        || is_char(key, '?') || is_char(key, 'h');
    &&& r is Nothing
    &&& after == (if closes {
        App { mode: Mode::PluginManager { pane: PluginPane::List }, ..before }
    } else {
        before
    })
}

// ---------- forms ----------

/// A text without its last character.
pub open spec fn shorter(s: Seq<char>) -> Seq<char> {
    if s.len() > 0 {
        s.drop_last()
    } else {
        s
    }
}

/// What a key does while a field of a form is edited.
pub open spec fn field_done(
    after: App,
    before: App,
    key: KeyEvent,
    r: Command,
    commit: Command,
) -> bool {
    if key.code == KeyCode::Enter {
        after == before && r == commit
    } else {
        &&& r is Nothing
        &&& after == (App { config_editing: after.config_editing, ..before })
        &&& if key.code == KeyCode::Esc {
            after.config_editing is None
        } else if key.code == KeyCode::Backspace {
            opt(after.config_editing) == Some(shorter(opt_or_empty(before.config_editing)))
        } else if key.code is Char && !is_control(key.code->Char_0) {
            opt(after.config_editing) == Some(
                opt_or_empty(before.config_editing).push(key.code->Char_0),
            )
        } else {
            after.config_editing == before.config_editing
        }
    }
}

/// What a key does in the form of a plugin. Choices go round their options, any
/// other field is edited. Where no field is selected, there is none to edit.
pub open spec fn configure_done(after: App, before: App, key: KeyEvent, r: Command) -> bool {
    if before.config_editing is Some {
        field_done(after, before, key, r, Command::CommitConfigField)
    } else {
        match before.config_spec {
            None => after == before && r is Nothing,
            Some(form) => {
                let f = field_at(before.config_spec, before.config_selected as int);
                let choice = f is Some && crate::settings::is_choice(f->0);
                if key.code == KeyCode::Esc || is_char(key, 'q') {
                    after == (App { mode: Mode::PluginManager { pane: PluginPane::List }, ..before })
                        && r is Nothing
                } else if is_up(key) {
                    after == (App { config_selected: after.config_selected, ..before })
                        && after.config_selected == up(before.config_selected as int) && r is Nothing
                } else if is_down(key) {
                    after == (App { config_selected: after.config_selected, ..before })
                        && after.config_selected == down(
                        before.config_selected as int,
                        form.fields@.len() as int,
                    ) && r is Nothing
                } else if key.code == KeyCode::Tab || key.code == KeyCode::BackTab {
                    after == before && r == (Command::CycleConfigField {
                        delta: if key.code == KeyCode::Tab {
                            1
                        } else {
                            -1i32
                        },
                    })
                } else if key.code == KeyCode::Enter || is_char(key, ' ') {
                    if choice {
                        after == before && r == (Command::CycleConfigField { delta: 1 })
                    } else if f is None {
                        after == before && r is Nothing
                    } else {
                        after == (App { config_editing: after.config_editing, ..before }) && opt(
                            after.config_editing,
                        ) == Some(
                            crate::collections::value_or_empty(before.config_values@, f->0.key@),
                        ) && r is Nothing
                    }
                } else if key.code is Char && !is_control(key.code->Char_0) && !choice {
                    after == (App { config_editing: after.config_editing, ..before }) && opt(
                        after.config_editing,
                    ) == Some(seq![key.code->Char_0]) && r is Nothing
                } else {
                    after == before && r is Nothing
                }
            },
        }
    }
}

/// The rows of the settings of the host before those of the plugins.
pub open spec fn host_fields(a: App) -> int {
    match a.global_spec {
        Some(s) => s.fields@.len() as int,
        None => 0,
    }
}

/// What a key does on the settings page of the host.
pub open spec fn global_done(after: App, before: App, key: KeyEvent, r: Command) -> bool {
    let fields = host_fields(before);
    let entries = before.global_plugin_entries@;
    let i = before.config_selected as int;
    if before.config_editing is Some {
        field_done(after, before, key, r, Command::CommitGlobalField)
    } else if key.code == KeyCode::Esc || is_char(key, 'q') {
        cancelled(after, before) && r is Nothing
    } else if is_up(key) {
        after == (App { config_selected: after.config_selected, ..before }) && after.config_selected
            == up(i) && r is Nothing
    } else if is_down(key) {
        after == (App { config_selected: after.config_selected, ..before }) && after.config_selected
            == down(i, reachable(before.global_rows())) && r is Nothing
    } else if key.code == KeyCode::Enter || is_char(key, ' ') {
        if i < fields {
            after == (App { config_editing: after.config_editing, ..before }) && opt(
                after.config_editing,
            ) == Some(
                crate::collections::value_or_empty(
                    before.global_values@,
                    before.global_spec->0.fields@[i].key@,
                ),
            ) && r is Nothing
        } else if i - fields < entries.len() {
            after == before && (r matches Command::CallPlugin { plugin, call } && plugin@
                == entries[i - fields].0@ && call is Configure)
        } else if i - fields == entries.len() {
            after == (App { mode: Mode::ConfirmPurge, ..before }) && r is Nothing
        } else {
            after == before && r is Nothing
        }
    } else {
        after == before && r is Nothing
    }
}

impl App {
    fn edit_field(&mut self, key: KeyEvent)
        requires
            old(self).wf(),
            old(self).config_editing is Some,
            key.code != KeyCode::Enter,
        ensures
            final(self).wf(),
            field_done(*final(self), *old(self), key, Command::Nothing, Command::Nothing),
    {
        let text = match &self.config_editing {
            Some(t) => to_chars(t.as_str()),
            None => {
                return;
            },
        };
        match key.code {
            KeyCode::Esc => {
                self.config_editing = None;
            },
            KeyCode::Backspace => {
                let n: usize = if text.len() > 0 {
                    text.len() - 1
                } else {
                    0
                };
                let left = take(&text, n);
                assert(left@ =~= shorter(text@));
                self.config_editing = Some(from_chars(&left));
            },
            KeyCode::Char(c) => {
                if !control_char(c) {
                    let mut longer = text;
                    longer.push(c);
                    self.config_editing = Some(from_chars(&longer));
                }
            },
            _ => {},
        }
    }

    /// Handles a key in the form of a plugin.
    #[verifier::rlimit(60)]
    pub fn handle_configure_key(&mut self, key: KeyEvent) -> (r: Command)
        requires
            old(self).wf(),
        ensures
            final(self).wf(),
            configure_done(*final(self), *old(self), key, r),
    {
        if self.config_editing.is_some() {
            if key.code == KeyCode::Enter {
                return Command::CommitConfigField;
            }
            self.edit_field(key);
            return Command::Nothing;
        }
        let (len, name): (usize, Option<String>) = match &self.config_spec {
            Some(form) => {
                let len: usize = form.fields.len();
                if self.config_selected < len {
                    (len, Some(form.fields[self.config_selected].key.clone()))
                } else {
                    (len, None)
                }
            },
            None => {
                return Command::Nothing;
            },
        };
        let choice = self.config_selected_is_select();
        match key.code {
            KeyCode::Esc => {
                self.mode = Mode::PluginManager { pane: PluginPane::List };
            },
            KeyCode::Up => {
                self.config_selected = step_up(self.config_selected);
            },
            KeyCode::Down => {
                self.config_selected = step_down(self.config_selected, len);
            },
            KeyCode::Tab => {
                return Command::CycleConfigField { delta: 1 };
            },
            KeyCode::BackTab => {
                return Command::CycleConfigField { delta: -1 };
            },
            KeyCode::Enter => {
                if choice {
                    return Command::CycleConfigField { delta: 1 };
                }
                if let Some(name) = name {
                    self.config_editing = Some(self.config_values.get_or_empty(name.as_str()));
                }
            },
            KeyCode::Char(c) => {
                if c == 'q' {
                    self.mode = Mode::PluginManager { pane: PluginPane::List };
                } else if c == 'k' {
                    self.config_selected = step_up(self.config_selected);
                } else if c == 'j' {
                    self.config_selected = step_down(self.config_selected, len);
                } else if c == ' ' {
                    if choice {
                        return Command::CycleConfigField { delta: 1 };
                    }
                    if let Some(name) = name {
                        self.config_editing = Some(self.config_values.get_or_empty(name.as_str()));
                    }
                } else if !control_char(c) && !choice {
                    self.config_editing = Some(crate::keys::char_text(c));
                }
            },
            _ => {},
        }
        Command::Nothing
    }

    fn enter_global_row(&mut self) -> (r: Command)
        requires
            old(self).wf(),
            old(self).config_editing is None,
        ensures
            final(self).wf(),
            global_done(
                *final(self),
                *old(self),
                KeyEvent { code: KeyCode::Enter, modifiers: crate::keys::no_modifiers() },
                r,
            ),
    {
        let fields: usize = match &self.global_spec {
            Some(s) => s.fields.len(),
            None => 0,
        };
        let i: usize = self.config_selected;
        if i < fields {
            let name = match &self.global_spec {
                Some(s) => s.fields[i].key.clone(),
                None => String::new(),
            };
            self.config_editing = Some(self.global_values.get_or_empty(name.as_str()));
            return Command::Nothing;
        }
        let k: usize = i - fields;
        if k < self.global_plugin_entries.len() {
            return Command::CallPlugin {
                plugin: self.global_plugin_entries[k].0.clone(),
                call: PluginCall::Configure,
            };
        }
        if k == self.global_plugin_entries.len() {
            self.request_purge();
        }
        Command::Nothing
    }

    /// Handles a key on the settings page of the host.
    #[verifier::rlimit(60)]
    pub fn handle_global_config_key(&mut self, key: KeyEvent) -> (r: Command)
        requires
            old(self).wf(),
        ensures
            final(self).wf(),
            global_done(*final(self), *old(self), key, r),
    {
        if self.config_editing.is_some() {
            if key.code == KeyCode::Enter {
                return Command::CommitGlobalField;
            }
            self.edit_field(key);
            return Command::Nothing;
        }
        if key.code == KeyCode::Esc || key.code == KeyCode::Char('q') {
            self.cancel();
            return Command::Nothing;
        }
        if key.code == KeyCode::Up || key.code == KeyCode::Char('k') {
            self.config_selected = step_up(self.config_selected);
            return Command::Nothing;
        }
        if key.code == KeyCode::Down || key.code == KeyCode::Char('j') {
            let fields: usize = match &self.global_spec {
                Some(s) => s.fields.len(),
                None => 0,
            };
            let rows: u128 = fields as u128 + self.global_plugin_entries.len() as u128 + 1;
            self.config_selected = step_down_rows(self.config_selected, rows);
            return Command::Nothing;
        }
        if key.code == KeyCode::Enter || key.code == KeyCode::Char(' ') {
            return self.enter_global_row();
        }
        Command::Nothing
    }
}

// ---------- pages, questions and pickers ----------

/// What a key does on the help page.
pub open spec fn help_done(after: App, before: App, key: KeyEvent, r: Command) -> bool {
    &&& r is Nothing
    &&& if key.code == KeyCode::Esc || is_char(key, 'q') || is_char(key, '?') || key.code
        == KeyCode::Enter {
        after == (App { mode: Mode::Normal, ..before })
    } else if key.code == KeyCode::Left || is_char(key, 'h') || key.code == KeyCode::BackTab {
        tab_cycled(after, before, -1)
    } else if key.code == KeyCode::Right || is_char(key, 'l') || key.code == KeyCode::Tab {
        tab_cycled(after, before, 1)
    } else if is_up(key) {
        after == (App { help_scroll: after.help_scroll, ..before }) && after.help_scroll == up(
            before.help_scroll as int,
        )
    } else if is_down(key) {
        after == (App { help_scroll: after.help_scroll, ..before }) && after.help_scroll == down(
            before.help_scroll as int,
            usize::MAX + 1,
        )
    } else {
        after == before
    }
}

/// Whether the tab of the help page was changed.
pub open spec fn tab_cycled(after: App, before: App, delta: int) -> bool {
    if before.help_tabs@.len() == 0 {
        after == before
    } else {
        &&& after == (App { help_selected: after.help_selected, help_scroll: 0, ..before })
        &&& after.help_selected == around(
            before.help_selected as int,
            delta,
            before.help_tabs@.len() as int,
        )
    }
}

/// Whether a key says yes.
pub open spec fn is_yes(key: KeyEvent) -> bool {
    is_char(key, 'y') || is_char(key, 'Y')
}

/// Whether a key says no.
pub open spec fn is_no(key: KeyEvent) -> bool {
    is_char(key, 'n') || is_char(key, 'N') || key.code == KeyCode::Esc
}

fn says_yes(key: KeyEvent) -> (r: bool)
    ensures
        r == is_yes(key),
{
    key.code == KeyCode::Char('y') || key.code == KeyCode::Char('Y')
}

fn says_no(key: KeyEvent) -> (r: bool)
    ensures
        r == is_no(key),
{
    key.code == KeyCode::Char('n') || key.code == KeyCode::Char('N') || key.code == KeyCode::Esc
}

/// What a key does in the question before a goal is deleted.
pub open spec fn delete_done(after: App, before: App, key: KeyEvent, r: Command) -> bool {
    if is_yes(key) {
        after == before && r is ConfirmDelete
    } else if is_no(key) || is_char(key, 'q') {
        cancelled(after, before) && r is Nothing
    } else {
        after == before && r is Nothing
    }
}

/// What a key does in the question before all data is deleted.
pub open spec fn purge_done(after: App, before: App, key: KeyEvent, r: Command) -> bool {
    if is_yes(key) {
        after == before && r is ConfirmPurge
    } else if is_no(key) {
        cancelled(after, before) && r is Nothing
    } else {
        after == before && r is Nothing
    }
}

/// What a key does in the question before a sheet is deleted.
pub open spec fn delete_sheet_done(after: App, before: App, key: KeyEvent, r: Command) -> bool {
    if is_yes(key) {
        after == before && r is ConfirmDeleteSheet
    } else if is_no(key) || is_char(key, 'q') {
        after == (App { mode: Mode::SheetPicker, ..before }) && r is Nothing
    } else {
        after == before && r is Nothing
    }
}

/// What a key does on the command line.
pub open spec fn command_done(after: App, before: App, key: KeyEvent, r: Command) -> bool {
    let list = before.command_list();
    if key.code == KeyCode::Esc {
        cancelled(after, before) && r is Nothing
    } else if key.code == KeyCode::Enter {
        if list.len() == 0 {
            after == (App { message: after.message, ..before }) && says(
                after.message,
                "no matching command"@,
            ) && r is Nothing
        } else {
            after == before && r == Command::RunCommand(
                list[crate::goals::within(before.command_selected as int, list.len() as int)],
            )
        }
    } else if key.code == KeyCode::Up || key.code == KeyCode::Down {
        after == (App { command_selected: after.command_selected, ..before })
            && after.command_selected == (if list.len() == 0 {
            0
        } else {
            crate::plugin_ui::stepped(
                before.command_selected as int,
                if key.code == KeyCode::Up {
                    -1
                } else {
                    1
                },
                list.len() as int,
            )
        }) && r is Nothing
    } else if key.code == KeyCode::Left || key.code == KeyCode::Right {
        input_edited(after, before, key) && r is Nothing
    } else if edit_of(key) is Nothing {
        after == before && r is Nothing
    } else {
        &&& after == (App { input: after.input, command_selected: after.command_selected, ..before })
        &&& after.input@ == edited_view(before.input@, edit_of(key))
        &&& after.command_selected == crate::goals::within(
            before.command_selected as int,
            after.command_list().len() as int,
        )
        &&& r is Nothing
    }
}

/// What a key does in the agent picker.
pub open spec fn agent_picker_done(after: App, before: App, key: KeyEvent, r: Command) -> bool {
    if key.code == KeyCode::Esc || is_char(key, 'q') {
        after == (App { mode: Mode::Normal, ..before }) && r is Nothing
    } else if is_up(key) {
        after == (App { agent_selected: after.agent_selected, ..before }) && after.agent_selected
            == up(before.agent_selected as int) && r is Nothing
    } else if is_down(key) {
        after == (App { agent_selected: after.agent_selected, ..before }) && after.agent_selected
            == down(before.agent_selected as int, before.agent_choices@.len() as int) && r is Nothing
    } else if key.code == KeyCode::Enter {
        after == before && (match before.mode {
            Mode::AgentPicker { goal_id } => r == (Command::StartAgentRun { goal_id }),
            _ => r is Nothing,
        })
    } else {
        after == before && r is Nothing
    }
}

/// What a key does in the move picker.
pub open spec fn move_picker_done(after: App, before: App, key: KeyEvent, r: Command) -> bool {
    if key.code == KeyCode::Esc || is_char(key, 'q') {
        after == (App { mode: Mode::Normal, ..before }) && r is Nothing
    } else if is_up(key) {
        after == (App { move_selected: after.move_selected, ..before }) && after.move_selected == up(
            before.move_selected as int,
        ) && r is Nothing
    } else if is_down(key) {
        after == (App { move_selected: after.move_selected, ..before }) && after.move_selected
            == down(before.move_selected as int, before.move_choices@.len() as int) && r is Nothing
    } else {
        after == before && (if key.code == KeyCode::Enter {
            r is ConfirmMove
        } else {
            r is Nothing
        })
    }
}

/// The rows of the sheet picker: all goals, the sheets and the buffers.
pub open spec fn picker_rows(a: App) -> int {
    (1 + a.sheets@.len() + a.buffer_manager.buffers@.dom().len()) as int
}

/// What a key does in the sheet picker.
pub open spec fn sheet_picker_done(after: App, before: App, key: KeyEvent, r: Command) -> bool {
    if key.code == KeyCode::Esc || is_char(key, 'q') {
        after == (App { mode: Mode::Normal, ..before }) && r is Nothing
    } else if is_up(key) {
        after == (App { sheet_picker_selected: after.sheet_picker_selected, ..before })
            && after.sheet_picker_selected == up(before.sheet_picker_selected as int) && r is Nothing
    } else if is_down(key) {
        after == (App { sheet_picker_selected: after.sheet_picker_selected, ..before })
            && after.sheet_picker_selected == down(
            before.sheet_picker_selected as int,
            reachable(picker_rows(before)),
        ) && r is Nothing
    } else if key.code == KeyCode::Enter {
        after == before && r is SelectSheet
    } else if is_char(key, 'n') {
        after == (App { input: after.input, mode: Mode::AddSheet, ..before }) && after.input@
            == empty_input() && r is Nothing
    } else if is_char(key, 'd') {
        r is Nothing && (match before.sheet_to_delete() {
            Some(id) => after == (App { mode: after.mode, ..before }) && (
            after.mode matches Mode::ConfirmDeleteSheet { sheet_id } && sheet_id@ == id),
            None => after == (App { message: after.message, ..before }) && says(
                after.message,
                "no sheet selected to delete"@,
            ),
        })
    } else {
        after == before && r is Nothing
    }
}

/// What a key does in the view of a full result.
pub open spec fn full_result_done(after: App, before: App, key: KeyEvent, r: Command) -> bool {
    &&& r is Nothing
    &&& if key.code == KeyCode::Esc || is_char(key, 'q') {
        cancelled(after, before)
    } else if is_down(key) {
        scrolled(after, before, 1)
    } else if is_up(key) {
        scrolled(after, before, -1)
    } else if key.code == KeyCode::PageDown {
        scrolled(after, before, 10)
    } else if key.code == KeyCode::PageUp {
        scrolled(after, before, -10)
    } else if key.code == KeyCode::Home {
        scrolled_to(after, before, 0)
    } else if key.code == KeyCode::End {
        scrolled_to(after, before, 100000)
    } else {
        after == before
    }
}

/// Whether the view of a full result was scrolled to a line.
pub open spec fn scrolled_to(after: App, before: App, line: int) -> bool {
    match before.mode {
        Mode::FullResult { goal_id, .. } => after == (App { mode: after.mode, ..before }) && (
        after.mode matches Mode::FullResult { goal_id: id, scroll } && id == goal_id && scroll
            == line),
        _ => after == before,
    }
}

/// Whether the view of a full result was scrolled by some lines, not before its
/// start.
pub open spec fn scrolled(after: App, before: App, delta: int) -> bool {
    match before.mode {
        Mode::FullResult { scroll, .. } => scrolled_to(
            after,
            before,
            crate::plugin_ui::stepped(scroll as int, delta, usize::MAX + 1),
        ),
        _ => after == before,
    }
}

impl App {
    /// Handles a key on the help page.
    #[verifier::rlimit(40)]
    pub fn handle_help_key(&mut self, key: KeyEvent) -> (r: Command)
        requires
            old(self).wf(),
        ensures
            final(self).wf(),
            help_done(*final(self), *old(self), key, r),
    {
        let c: char = match key.code {
            KeyCode::Char(c) => c,
            _ => '\0',
        };
        if key.code == KeyCode::Esc || key.code == KeyCode::Enter || c == 'q' || c == '?' {
            self.mode = Mode::Normal;
            return Command::Nothing;
        }
        if key.code == KeyCode::Left || key.code == KeyCode::BackTab || c == 'h' {
            self.cycle_help_tab(-1);
            return Command::Nothing;
        }
        if key.code == KeyCode::Right || key.code == KeyCode::Tab || c == 'l' {
            self.cycle_help_tab(1);
            return Command::Nothing;
        }
        if key.code == KeyCode::Up || c == 'k' {
            self.help_scroll = step_up(self.help_scroll);
            return Command::Nothing;
        }
        if key.code == KeyCode::Down || c == 'j' {
            self.scroll_help_down();
        }
        Command::Nothing
    }

    fn scroll_help_down(&mut self)
        ensures
            *final(self) == (App { help_scroll: final(self).help_scroll, ..*old(self) }),
            final(self).help_scroll == down(old(self).help_scroll as int, usize::MAX + 1),
    {
        if self.help_scroll < usize::MAX {
            self.help_scroll = self.help_scroll + 1;
        }
    }

    /// Handles a key in the question before a goal is deleted.
    pub fn handle_confirm_delete_key(&mut self, key: KeyEvent) -> (r: Command)
        requires
            old(self).wf(),
        ensures
            final(self).wf(),
            delete_done(*final(self), *old(self), key, r),
    {
        if says_yes(key) {
            return Command::ConfirmDelete;
        }
        if says_no(key) || key.code == KeyCode::Char('q') {
            self.cancel();
        }
        Command::Nothing
    }

    /// Handles a key in the question before all data is deleted.
    pub fn handle_purge_key(&mut self, key: KeyEvent) -> (r: Command)
        requires
            old(self).wf(),
        ensures
            final(self).wf(),
            purge_done(*final(self), *old(self), key, r),
    {
        if says_yes(key) {
            return Command::ConfirmPurge;
        }
        if says_no(key) {
            self.cancel();
        }
        Command::Nothing
    }

    /// Handles a key in the question before a sheet is deleted.
    pub fn handle_confirm_delete_sheet_key(&mut self, key: KeyEvent) -> (r: Command)
        requires
            old(self).wf(),
        ensures
            final(self).wf(),
            delete_sheet_done(*final(self), *old(self), key, r),
    {
        if says_yes(key) {
            return Command::ConfirmDeleteSheet;
        }
        if says_no(key) || key.code == KeyCode::Char('q') {
            self.mode = Mode::SheetPicker;
        }
        Command::Nothing
    }

    /// Handles a key on the command line.
    #[verifier::rlimit(40)]
    pub fn handle_command_key(&mut self, key: KeyEvent) -> (r: Command)
        requires
            old(self).wf(),
        ensures
            final(self).wf(),
            command_done(*final(self), *old(self), key, r),
    {
        match key.code {
            KeyCode::Esc => {
                self.cancel();
            },
            KeyCode::Enter => {
                let matches = self.command_matches();
                if matches.len() == 0 {
                    self.set_message("no matching command");
                } else {
                    let i: usize = if self.command_selected < matches.len() {
                        self.command_selected
                    } else {
                        matches.len() - 1
                    };
                    return Command::RunCommand(matches[i].clone());
                }
            },
            KeyCode::Up => {
                self.move_command_selection(-1);
            },
            KeyCode::Down => {
                self.move_command_selection(1);
            },
            KeyCode::Left => {
                edit_input(&mut self.input, key);
            },
            KeyCode::Right => {
                edit_input(&mut self.input, key);
            },
            _ => {
                if key_edit(key) != Edit::Nothing {
                    edit_input(&mut self.input, key);
                    self.clamp_command_selection();
                }
            },
        }
        Command::Nothing
    }

    /// Handles a key in the agent picker.
    pub fn handle_agent_picker_key(&mut self, key: KeyEvent) -> (r: Command)
        requires
            old(self).wf(),
        ensures
            final(self).wf(),
            agent_picker_done(*final(self), *old(self), key, r),
    {
        if key.code == KeyCode::Esc || key.code == KeyCode::Char('q') {
            self.mode = Mode::Normal;
        } else if key.code == KeyCode::Up || key.code == KeyCode::Char('k') {
            self.agent_selected = step_up(self.agent_selected);
        } else if key.code == KeyCode::Down || key.code == KeyCode::Char('j') {
            self.agent_selected = step_down(self.agent_selected, self.agent_choices.len());
        } else if key.code == KeyCode::Enter {
            if let Mode::AgentPicker { goal_id } = &self.mode {
                return Command::StartAgentRun { goal_id: goal_id.clone() };
            }
        }
        Command::Nothing
    }

    /// Handles a key in the move picker.
    pub fn handle_move_picker_key(&mut self, key: KeyEvent) -> (r: Command)
        requires
            old(self).wf(),
        ensures
            final(self).wf(),
            move_picker_done(*final(self), *old(self), key, r),
    {
        if key.code == KeyCode::Esc || key.code == KeyCode::Char('q') {
            self.mode = Mode::Normal;
        } else if key.code == KeyCode::Up || key.code == KeyCode::Char('k') {
            self.move_selected = step_up(self.move_selected);
        } else if key.code == KeyCode::Down || key.code == KeyCode::Char('j') {
            self.move_selected = step_down(self.move_selected, self.move_choices.len());
        } else if key.code == KeyCode::Enter {
            return Command::ConfirmMove;
        }
        Command::Nothing
    }

    /// Handles a key in the sheet picker.
    #[verifier::rlimit(40)]
    pub fn handle_sheet_picker_key(&mut self, key: KeyEvent) -> (r: Command)
        requires
            old(self).wf(),
        ensures
            final(self).wf(),
            sheet_picker_done(*final(self), *old(self), key, r),
    {
        if key.code == KeyCode::Esc || key.code == KeyCode::Char('q') {
            self.mode = Mode::Normal;
        } else if key.code == KeyCode::Up || key.code == KeyCode::Char('k') {
            self.sheet_picker_selected = step_up(self.sheet_picker_selected);
        } else if key.code == KeyCode::Down || key.code == KeyCode::Char('j') {
            let ids = self.buffer_manager.list_buffers();
            proof {
                crate::sheets::lemma_sorted_ids_len(
                    crate::text::texts(ids@),
                    self.buffer_manager.buffers@.dom(),
                );
                assert(crate::text::texts(ids@).len() == ids@.len());
            }
            let rows: u128 = 1 + self.sheets.len() as u128 + ids.len() as u128;
            self.sheet_picker_selected = step_down_rows(self.sheet_picker_selected, rows);
        } else if key.code == KeyCode::Enter {
            return Command::SelectSheet;
        } else if key.code == KeyCode::Char('n') {
            self.start_add_sheet();
        } else if key.code == KeyCode::Char('d') {
            self.start_delete_sheet();
        }
        Command::Nothing
    }

    /// Handles a key in the input of a new sheet.
    pub fn handle_add_sheet_key(&mut self, key: KeyEvent) -> (r: Command)
        requires
            old(self).wf(),
        ensures
            final(self).wf(),
            add_sheet_done(*final(self), *old(self), key, r),
    {
        if key.code == KeyCode::Esc {
            self.mode = Mode::SheetPicker;
            return Command::Nothing;
        }
        if key.code == KeyCode::Enter {
            return Command::CommitAddSheet;
        }
        edit_input(&mut self.input, key);
        Command::Nothing
    }

    /// Handles a key in the input of a range.
    pub fn handle_assign_range_key(&mut self, key: KeyEvent) -> (r: Command)
        requires
            old(self).wf(),
        ensures
            final(self).wf(),
            assign_range_done(*final(self), *old(self), key, r),
    {
        if key.code == KeyCode::Esc {
            self.cancel();
            return Command::Nothing;
        }
        if key.code == KeyCode::Enter {
            return Command::CommitAssignRange;
        }
        edit_input(&mut self.input, key);
        Command::Nothing
    }

    /// Handles a key in the view of a running agent: Esc leaves it, and the run
    /// goes on.
    pub fn handle_agent_running_key(&mut self, key: KeyEvent) -> (r: Command)
        requires
            old(self).wf(),
        ensures
            final(self).wf(),
            agent_running_done(*final(self), *old(self), key, r),
    {
        if key.code == KeyCode::Esc {
            self.mode = Mode::Normal;
        }
        Command::Nothing
    }

    /// Handles a key in the statistics.
    pub fn handle_stats_key(&mut self, key: KeyEvent) -> (r: Command)
        requires
            old(self).wf(),
        ensures
            final(self).wf(),
            stats_done(*final(self), *old(self), key, r),
    {
        if key.code == KeyCode::Esc || key.code == KeyCode::Char('q') || key.code
            == KeyCode::Enter {
            self.cancel();
        }
        Command::Nothing
    }

    /// Scrolls the view of a full result, not before its start.
    pub fn full_result_scroll(&mut self, delta: i32)
        requires
            old(self).wf(),
        ensures
            final(self).wf(),
            scrolled(*final(self), *old(self), delta as int),
    {
        let (goal_id, at) = match &self.mode {
            Mode::FullResult { goal_id, scroll } => (goal_id.clone(), *scroll),
            _ => {
                return;
            },
        };
        let p: i128 = at as i128 + delta as i128;
        let scroll: usize = if p < 0 {
            0
        } else if p > usize::MAX as i128 {
            usize::MAX
        } else {
            p as usize
        };
        self.mode = Mode::FullResult { goal_id, scroll };
    }

    fn full_result_to(&mut self, line: usize)
        requires
            old(self).wf(),
        ensures
            final(self).wf(),
            scrolled_to(*final(self), *old(self), line as int),
    {
        let goal_id = match &self.mode {
            Mode::FullResult { goal_id, .. } => goal_id.clone(),
            _ => {
                return;
            },
        };
        self.mode = Mode::FullResult { goal_id, scroll: line };
    }

    /// Handles a key in the view of a full result.
    #[verifier::rlimit(40)]
    pub fn handle_full_result_key(&mut self, key: KeyEvent) -> (r: Command)
        requires
            old(self).wf(),
        ensures
            final(self).wf(),
            full_result_done(*final(self), *old(self), key, r),
    {
        if key.code == KeyCode::Esc || key.code == KeyCode::Char('q') {
            self.cancel();
        } else if key.code == KeyCode::Down || key.code == KeyCode::Char('j') {
            self.full_result_scroll(1);
        } else if key.code == KeyCode::Up || key.code == KeyCode::Char('k') {
            self.full_result_scroll(-1);
        } else if key.code == KeyCode::PageDown {
            self.full_result_scroll(10);
        } else if key.code == KeyCode::PageUp {
            self.full_result_scroll(-10);
        } else if key.code == KeyCode::Home {
            self.full_result_to(0);
        } else if key.code == KeyCode::End {
            self.full_result_to(100000);
        }
        Command::Nothing
    }
}

/// What a key does in the input of a new sheet.
pub open spec fn add_sheet_done(after: App, before: App, key: KeyEvent, r: Command) -> bool {
    if key.code == KeyCode::Esc {
        after == (App { mode: Mode::SheetPicker, ..before }) && r is Nothing
    } else {
        line_done(after, before, key, r, Command::CommitAddSheet)
    }
}

/// What a key does in the input of a range.
pub open spec fn assign_range_done(after: App, before: App, key: KeyEvent, r: Command) -> bool {
    if key.code == KeyCode::Esc {
        cancelled(after, before) && r is Nothing
    } else {
        line_done(after, before, key, r, Command::CommitAssignRange)
    }
}

/// What a key does in the view of a running agent.
pub open spec fn agent_running_done(after: App, before: App, key: KeyEvent, r: Command) -> bool {
    &&& r is Nothing
    &&& after == (if key.code == KeyCode::Esc {
        App { mode: Mode::Normal, ..before }
    } else {
        before
    })
}

/// What a key does in the statistics.
pub open spec fn stats_done(after: App, before: App, key: KeyEvent, r: Command) -> bool {
    &&& r is Nothing
    &&& if key.code == KeyCode::Esc || is_char(key, 'q') || key.code == KeyCode::Enter {
        cancelled(after, before)
    } else {
        after == before
    }
}

// ---------- plugins ----------

/// What a key does in the panel of a plugin: it is offered to the plugin under
/// its name.
pub open spec fn panel_command(key: KeyEvent, r: Command) -> bool {
    match panel_name(key) {
        Some(n) => r matches Command::PanelKey { name } && name@ == n,
        None => r is Nothing,
    }
}

/// What a key does in a dialog of a plugin.
pub open spec fn modal_done(after: App, before: App, key: KeyEvent, r: Command) -> bool {
    let text = modal_text(before.plugin_modal) is Some;
    let confirm = before.plugin_modal is Some && before.plugin_modal->0.kind is Confirm;
    let multi = before.plugin_modal is Some && before.plugin_modal->0.kind is MultiSelect;
    let list = multi || (before.plugin_modal is Some && before.plugin_modal->0.kind is Pick);
    if key.code == KeyCode::Enter {
        if text && key.modifiers.shift {
            &&& r is Nothing
            &&& after == (App { plugin_modal: after.plugin_modal, ..before })
            &&& if before.plugin_modal->0.kind is TextEditor {
                with_text(
                    after.plugin_modal,
                    before.plugin_modal,
                    modal_text(before.plugin_modal)->0.push('\n'),
                )
            } else {
                after.plugin_modal == before.plugin_modal
            }
        } else {
            after == before && r is SubmitModal
        }
    } else if text && key.code is Char && !is_control(key.code->Char_0) {
        &&& r is Nothing
        &&& after == (App { plugin_modal: after.plugin_modal, ..before })
        &&& with_text(
            after.plugin_modal,
            before.plugin_modal,
            modal_text(before.plugin_modal)->0.push(key.code->Char_0),
        )
    } else if text && key.code == KeyCode::Backspace {
        &&& r is Nothing
        &&& after == (App { plugin_modal: after.plugin_modal, ..before })
        &&& with_text(
            after.plugin_modal,
            before.plugin_modal,
            shorter(modal_text(before.plugin_modal)->0),
        )
    } else if key.code == KeyCode::Esc {
        after == before && r is CancelModal
    } else if confirm && is_yes(key) {
        after == before && r is SubmitModal
    } else if confirm && (is_char(key, 'n') || is_char(key, 'N')) {
        after == before && r is CancelModal
    } else if list && (is_up(key) || is_down(key)) {
        &&& r is Nothing
        &&& after == (App { plugin_modal: after.plugin_modal, ..before })
        &&& moved_cursor(
            after.plugin_modal,
            before.plugin_modal,
            if is_up(key) {
                -1
            } else {
                1
            },
        )
    } else if multi && is_char(key, ' ') {
        &&& r is Nothing
        &&& after == (App { plugin_modal: after.plugin_modal, ..before })
        &&& toggled(after.plugin_modal, before.plugin_modal)
    } else {
        after == before && r is Nothing
    }
}

/// The kinds of dialogs that keys tell apart.
#[derive(Clone, Copy, Debug, PartialEq, Eq, Structural)]
pub enum DialogKind {
    Nothing,
    Text,
    Confirm,
    Pick,
    Multi,
}

impl App {
    fn dialog_kind(&self) -> (r: DialogKind)
        ensures
            (r == DialogKind::Nothing) == (self.plugin_modal is None),
            (r == DialogKind::Text) == (modal_text(self.plugin_modal) is Some),
            (r == DialogKind::Confirm) == (self.plugin_modal is Some && self.plugin_modal->0.kind
                is Confirm),
            (r == DialogKind::Pick) == (self.plugin_modal is Some && self.plugin_modal->0.kind
                is Pick),
            (r == DialogKind::Multi) == (self.plugin_modal is Some && self.plugin_modal->0.kind
                is MultiSelect),
    {
        match &self.plugin_modal {
            Some(m) => match &m.kind {
                PluginModalKind::Input { .. } => DialogKind::Text,
                PluginModalKind::TextEditor { .. } => DialogKind::Text,
                PluginModalKind::Confirm => DialogKind::Confirm,
                PluginModalKind::Pick { .. } => DialogKind::Pick,
                PluginModalKind::MultiSelect { .. } => DialogKind::Multi,
            },
            None => DialogKind::Nothing,
        }
    }

    /// Handles a key in the panel of a plugin.
    pub fn handle_plugin_panel_key(&self, key: KeyEvent) -> (r: Command)
        ensures
            panel_command(key, r),
    {
        match key_to_panel_name(key) {
            Some(name) => Command::PanelKey { name },
            None => Command::Nothing,
        }
    }

    /// Goes on with a key that was offered to the panel under a name: an Esc that
    /// the plugin did not handle closes the panel.
    pub fn panel_key_handled(&mut self, name: &str, handled: bool)
        requires
            old(self).wf(),
        ensures
            final(self).wf(),
            if !handled && name@ == "esc"@ {
                final(self).closed_panel(*old(self))
            } else {
                *final(self) == *old(self)
            },
    {
        if !handled && str_eq(name, "esc") {
            self.close_plugin_panel();
        }
    }

    /// Handles a key in a dialog of a plugin.
    #[verifier::rlimit(60)]
    pub fn handle_plugin_modal_key(&mut self, key: KeyEvent) -> (r: Command)
        requires
            old(self).wf(),
        ensures
            final(self).wf(),
            modal_done(*final(self), *old(self), key, r),
    {
        let kind = self.dialog_kind();
        match key.code {
            KeyCode::Enter => {
                if kind == DialogKind::Text && key.modifiers.shift {
                    self.plugin_modal_newline();
                    Command::Nothing
                } else {
                    Command::SubmitModal
                }
            },
            KeyCode::Esc => Command::CancelModal,
            KeyCode::Backspace => {
                if kind == DialogKind::Text {
                    self.plugin_modal_backspace();
                }
                Command::Nothing
            },
            KeyCode::Up => {
                if kind == DialogKind::Pick || kind == DialogKind::Multi {
                    self.plugin_modal_move_selection(-1);
                }
                Command::Nothing
            },
            KeyCode::Down => {
                if kind == DialogKind::Pick || kind == DialogKind::Multi {
                    self.plugin_modal_move_selection(1);
                }
                Command::Nothing
            },
            KeyCode::Char(c) => {
                let r = self.type_into_dialog(c, kind);
                assert(is_char(key, c));
                r
            },
            _ => Command::Nothing,
        }
    }

    #[verifier::rlimit(60)]
    fn type_into_dialog(&mut self, c: char, kind: DialogKind) -> (r: Command)
        requires
            old(self).wf(),
            (kind == DialogKind::Nothing) == (old(self).plugin_modal is None),
            (kind == DialogKind::Text) == (modal_text(old(self).plugin_modal) is Some),
            (kind == DialogKind::Confirm) == (old(self).plugin_modal is Some && old(
                self,
            ).plugin_modal->0.kind is Confirm),
            (kind == DialogKind::Pick) == (old(self).plugin_modal is Some && old(
                self,
            ).plugin_modal->0.kind is Pick),
            (kind == DialogKind::Multi) == (old(self).plugin_modal is Some && old(
                self,
            ).plugin_modal->0.kind is MultiSelect),
        ensures
            final(self).wf(),
            forall|key: KeyEvent| #[trigger]
                is_char(key, c) ==> modal_done(*final(self), *old(self), key, r),
    {
        match kind {
            DialogKind::Text => {
                if !control_char(c) {
                    self.plugin_modal_push_char(c);
                }
                Command::Nothing
            },
            DialogKind::Confirm => {
                if c == 'y' || c == 'Y' {
                    Command::SubmitModal
                } else if c == 'n' || c == 'N' {
                    Command::CancelModal
                } else {
                    Command::Nothing
                }
            },
            DialogKind::Pick => {
                if c == 'k' {
                    self.plugin_modal_move_selection(-1);
                } else if c == 'j' {
                    self.plugin_modal_move_selection(1);
                }
                Command::Nothing
            },
            DialogKind::Multi => {
                if c == 'k' {
                    self.plugin_modal_move_selection(-1);
                } else if c == 'j' {
                    self.plugin_modal_move_selection(1);
                } else if c == ' ' {
                    self.plugin_modal_toggle_current();
                }
                Command::Nothing
            },
            DialogKind::Nothing => Command::Nothing,
        }
    }
}

} // verus!
