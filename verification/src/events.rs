//! The way of a key: the leader key and the exits first, and after them the
//! handler of the mode.

use crate::app::App;
use crate::handlers::{
    add_sheet_done, agent_picker_done, agent_running_done, assign_range_done, bare_done,
    command_done,
    configure_done, delete_done, delete_sheet_done, full_result_done, global_done,
    help_done, input_done, is_char, leader_done, manager_done, modal_done, move_picker_done, normal_done,
    offered, panel_command, plugin_help_done, purge_done, quits, sheet_picker_done, stats_done,
    Command,
};
use crate::keys::{KeyCode, KeyEvent};
use crate::types::Mode;
use vstd::prelude::*;

verus! {

/// What the handler of the mode does with a key.
pub open spec fn mode_done(after: App, before: App, key: KeyEvent, r: Command) -> bool {
    match before.mode {
        Mode::Normal => normal_done(after, before, key, r),
        Mode::Help => help_done(after, before, key, r),
        Mode::ConfirmDelete { .. } => delete_done(after, before, key, r),
        Mode::ConfirmPurge => purge_done(after, before, key, r),
        Mode::PluginManager { pane } => manager_done(after, before, key, pane, r),
        Mode::PluginHelp => plugin_help_done(after, before, key, r),
        Mode::PluginConfigure { .. } => configure_done(after, before, key, r),
        Mode::AgentPicker { .. } => agent_picker_done(after, before, key, r),
        Mode::AgentRunning { .. } => agent_running_done(after, before, key, r),
        Mode::AssignRange => assign_range_done(after, before, key, r),
        Mode::MovePicker { .. } => move_picker_done(after, before, key, r),
        Mode::SheetPicker => sheet_picker_done(after, before, key, r),
        Mode::AddSheet => add_sheet_done(after, before, key, r),
        Mode::ConfirmDeleteSheet { .. } => delete_sheet_done(after, before, key, r),
        Mode::PluginModal => modal_done(after, before, key, r),
        Mode::PluginPanel => after == before && panel_command(key, r),
        Mode::Command => command_done(after, before, key, r),
        Mode::GlobalConfig => global_done(after, before, key, r),
        Mode::Stats => stats_done(after, before, key, r),
        Mode::FullResult { .. } => full_result_done(after, before, key, r),
        _ => input_done(after, before, key, r),
    }
}

/// What a key does. The leader key arms the leader in every mode; Ctrl+C and
/// Ctrl+D quit from every mode, and so does `q` behind the leader. Any other key
/// behind the leader is lost where the goal list is not shown, but for Esc.
pub open spec fn key_done(after: App, before: App, key: KeyEvent, r: Command) -> bool {
    if before.keybinds.leader.matched_by(key) {
        after == (App { leader_pending: true, ..before }) && r is Nothing
    } else if quits(key) || (before.leader_pending && is_char(key, 'q')) {
        after == before && r is Quit
    } else if before.leader_pending && key.code == KeyCode::Esc {
        mode_done(after, App { leader_pending: false, ..before }, key, r)
    } else if before.leader_pending && !(before.mode is Normal) {
        after == (App { leader_pending: false, ..before }) && r is Nothing
    } else {
        mode_done(after, before, key, r)
    }
}

impl App {
    fn handle_mode_key(&mut self, key: KeyEvent) -> (r: Command)
        requires
            old(self).wf(),
        ensures
            final(self).wf(),
            mode_done(*final(self), *old(self), key, r),
    {
        let mode = self.mode.clone();
        match mode {
            Mode::Normal => self.handle_normal_key(key),
            Mode::Help => self.handle_help_key(key),
            Mode::ConfirmDelete { .. } => self.handle_confirm_delete_key(key),
            Mode::ConfirmPurge => self.handle_purge_key(key),
            Mode::PluginManager { pane } => self.handle_plugin_manager_key(key, pane),
            Mode::PluginHelp => self.handle_plugin_help_key(key),
            Mode::PluginConfigure { .. } => self.handle_configure_key(key),
            Mode::AgentPicker { .. } => self.handle_agent_picker_key(key),
            Mode::AgentRunning { .. } => self.handle_agent_running_key(key),
            Mode::AssignRange => self.handle_assign_range_key(key),
            Mode::MovePicker { .. } => self.handle_move_picker_key(key),
            Mode::SheetPicker => self.handle_sheet_picker_key(key),
            Mode::AddSheet => self.handle_add_sheet_key(key),
            Mode::ConfirmDeleteSheet { .. } => self.handle_confirm_delete_sheet_key(key),
            Mode::PluginModal => self.handle_plugin_modal_key(key),
            Mode::PluginPanel => self.handle_plugin_panel_key(key),
            Mode::Command => self.handle_command_key(key),
            Mode::GlobalConfig => self.handle_global_config_key(key),
            Mode::Stats => self.handle_stats_key(key),
            Mode::FullResult { .. } => self.handle_full_result_key(key),
            _ => self.handle_input_key(key),
        }
    }

    /// Handles a key: gives the operation that has to follow.
    pub fn handle_key(&mut self, key: KeyEvent) -> (r: Command)
        requires
            old(self).wf(),
        ensures
            final(self).wf(),
            key_done(*final(self), *old(self), key, r),
    {
        if self.keybinds.leader.matches(key) {
            self.leader_pending = true;
            return Command::Nothing;
        }
        let control_exit = key.modifiers.control && (key.code == KeyCode::Char('c') || key.code
            == KeyCode::Char('d'));
        if control_exit || (self.leader_pending && key.code == KeyCode::Char('q')) {
            return Command::Quit;
        }
        if self.leader_pending {
            let normal = match &self.mode {
                Mode::Normal => true,
                _ => false,
            };
            if key.code == KeyCode::Esc {
                self.leader_pending = false;
            } else if !normal {
                self.leader_pending = false;
                return Command::Nothing;
            }
        }
        self.handle_mode_key(key)
    }

    /// After a key and what followed it: a message over the goal list is gone.
    pub fn after_key(&mut self)
        requires
            old(self).wf(),
        ensures
            final(self).wf(),
            *final(self) == (if old(self).mode is Normal && !old(self).leader_pending {
                App { message: None, ..*old(self) }
            } else {
                *old(self)
            }),
    {
        let normal = match &self.mode {
            Mode::Normal => true,
            _ => false,
        };
        if normal && !self.leader_pending && self.message.is_some() {
            self.clear_message();
        }
    }
}

/// Ctrl+C and Ctrl+D quit from every mode, and `q` behind the leader does, unless
/// the key is the leader key itself.
pub proof fn law_exits_work_in_every_mode(after: App, before: App, key: KeyEvent, r: Command)
    requires
        key_done(after, before, key, r),
        !before.keybinds.leader.matched_by(key),
        quits(key) || (before.leader_pending && is_char(key, 'q')),
    ensures
        r is Quit,
        after == before,
{
}

/// The leader key arms the leader in every mode and does nothing else.
pub proof fn law_leader_arms_in_every_mode(after: App, before: App, key: KeyEvent, r: Command)
    requires
        key_done(after, before, key, r),
        before.keybinds.leader.matched_by(key),
    ensures
        r is Nothing,
        after == (App { leader_pending: true, ..before }),
{
}

/// Whether the goals, the sheets and the installed plugins are the same.
pub open spec fn same_data(after: App, before: App) -> bool {
    &&& after.goals == before.goals
    &&& after.sheets == before.sheets
    &&& after.installed_plugins == before.installed_plugins
}

proof fn keeps_bare(after: App, before: App, key: KeyEvent, r: Command)
    requires
        bare_done(after, before, key, r),
    ensures
        same_data(after, before),
{
}

proof fn keeps_leader(after: App, before: App, key: KeyEvent, r: Command)
    requires
        leader_done(after, before, key, r),
    ensures
        same_data(after, before),
{
}

proof fn keeps_help(after: App, before: App, key: KeyEvent, r: Command)
    requires
        help_done(after, before, key, r),
    ensures
        same_data(after, before),
{
}

proof fn keeps_delete(after: App, before: App, key: KeyEvent, r: Command)
    requires
        delete_done(after, before, key, r),
    ensures
        same_data(after, before),
{
}

proof fn keeps_purge(after: App, before: App, key: KeyEvent, r: Command)
    requires
        purge_done(after, before, key, r),
    ensures
        same_data(after, before),
{
}

proof fn keeps_plugin_help(after: App, before: App, key: KeyEvent, r: Command)
    requires
        plugin_help_done(after, before, key, r),
    ensures
        same_data(after, before),
{
}

proof fn keeps_configure(after: App, before: App, key: KeyEvent, r: Command)
    requires
        configure_done(after, before, key, r),
    ensures
        same_data(after, before),
{
}

proof fn keeps_agent_picker(after: App, before: App, key: KeyEvent, r: Command)
    requires
        agent_picker_done(after, before, key, r),
    ensures
        same_data(after, before),
{
}

proof fn keeps_agent_running(after: App, before: App, key: KeyEvent, r: Command)
    requires
        agent_running_done(after, before, key, r),
    ensures
        same_data(after, before),
{
}

proof fn keeps_assign_range(after: App, before: App, key: KeyEvent, r: Command)
    requires
        assign_range_done(after, before, key, r),
    ensures
        same_data(after, before),
{
}

proof fn keeps_move_picker(after: App, before: App, key: KeyEvent, r: Command)
    requires
        move_picker_done(after, before, key, r),
    ensures
        same_data(after, before),
{
}

proof fn keeps_sheet_picker(after: App, before: App, key: KeyEvent, r: Command)
    requires
        sheet_picker_done(after, before, key, r),
    ensures
        same_data(after, before),
{
}

proof fn keeps_add_sheet(after: App, before: App, key: KeyEvent, r: Command)
    requires
        add_sheet_done(after, before, key, r),
    ensures
        same_data(after, before),
{
}

proof fn keeps_delete_sheet(after: App, before: App, key: KeyEvent, r: Command)
    requires
        delete_sheet_done(after, before, key, r),
    ensures
        same_data(after, before),
{
}

proof fn keeps_modal(after: App, before: App, key: KeyEvent, r: Command)
    requires
        modal_done(after, before, key, r),
    ensures
        same_data(after, before),
{
}

proof fn keeps_command(after: App, before: App, key: KeyEvent, r: Command)
    requires
        command_done(after, before, key, r),
    ensures
        same_data(after, before),
{
}

proof fn keeps_global(after: App, before: App, key: KeyEvent, r: Command)
    requires
        global_done(after, before, key, r),
    ensures
        same_data(after, before),
{
}

proof fn keeps_stats(after: App, before: App, key: KeyEvent, r: Command)
    requires
        stats_done(after, before, key, r),
    ensures
        same_data(after, before),
{
}

proof fn keeps_full_result(after: App, before: App, key: KeyEvent, r: Command)
    requires
        full_result_done(after, before, key, r),
    ensures
        same_data(after, before),
{
}

proof fn keeps_input(after: App, before: App, key: KeyEvent, r: Command)
    requires
        input_done(after, before, key, r),
    ensures
        same_data(after, before),
{
}

proof fn keeps_manager(
    after: App,
    before: App,
    key: KeyEvent,
    pane: crate::types::PluginPane,
    r: Command,
)
    requires
        manager_done(after, before, key, pane, r),
    ensures
        same_data(after, before),
{
}

proof fn keeps_normal(after: App, before: App, key: KeyEvent, r: Command)
    requires
        normal_done(after, before, key, r),
    ensures
        same_data(after, before),
{
    if quits(key) || before.keybinds.leader.matched_by(key) {
    } else if before.leader_pending {
        keeps_leader(after, App { leader_pending: false, ..before }, key, r);
    } else if offered(before, key) is None {
        keeps_bare(after, before, key, r);
    }
}

proof fn keeps_mode(after: App, before: App, key: KeyEvent, r: Command)
    requires
        mode_done(after, before, key, r),
    ensures
        same_data(after, before),
{
    match before.mode {
        Mode::Normal => keeps_normal(after, before, key, r),
        Mode::Help => keeps_help(after, before, key, r),
        Mode::ConfirmDelete { .. } => keeps_delete(after, before, key, r),
        Mode::ConfirmPurge => keeps_purge(after, before, key, r),
        Mode::PluginManager { pane } => keeps_manager(after, before, key, pane, r),
        Mode::PluginHelp => keeps_plugin_help(after, before, key, r),
        Mode::PluginConfigure { .. } => keeps_configure(after, before, key, r),
        Mode::AgentPicker { .. } => keeps_agent_picker(after, before, key, r),
        Mode::AgentRunning { .. } => keeps_agent_running(after, before, key, r),
        Mode::AssignRange => keeps_assign_range(after, before, key, r),
        Mode::MovePicker { .. } => keeps_move_picker(after, before, key, r),
        Mode::SheetPicker => keeps_sheet_picker(after, before, key, r),
        Mode::AddSheet => keeps_add_sheet(after, before, key, r),
        Mode::ConfirmDeleteSheet { .. } => keeps_delete_sheet(after, before, key, r),
        Mode::PluginModal => keeps_modal(after, before, key, r),
        Mode::PluginPanel => {},
        Mode::Command => keeps_command(after, before, key, r),
        Mode::GlobalConfig => keeps_global(after, before, key, r),
        Mode::Stats => keeps_stats(after, before, key, r),
        Mode::FullResult { .. } => keeps_full_result(after, before, key, r),
        _ => keeps_input(after, before, key, r),
    }
}

/// A key leaves the goals, the sheets and the installed plugins as they are: what
/// changes them has to be written first.
pub proof fn law_keys_keep_the_data(after: App, before: App, key: KeyEvent, r: Command)
    requires
        key_done(after, before, key, r),
    ensures
        same_data(after, before),
{
    if before.keybinds.leader.matched_by(key) || quits(key) || (before.leader_pending && is_char(
        key,
        'q',
    )) {
    } else if before.leader_pending && key.code == KeyCode::Esc {
        keeps_mode(after, App { leader_pending: false, ..before }, key, r);
    } else if before.leader_pending && !(before.mode is Normal) {
    } else {
        keeps_mode(after, before, key, r);
    }
}

} // verus!
