//! Laws of the keyboard: how the handlers of the modes relate keys, the state and the
//! operations that follow.

use crate::app::App;
use crate::config::Keybinds;
use crate::events::mode_done;
use crate::handlers::{
    agent_picker_done, agent_running_done, bare_action, bare_done, bound, buffer_done,
    command_done, configure_done, delete_done, delete_sheet_done, down, edit_of, edited_view, field_done,
    full_result_done, global_done, help_done, input_done, leader_action, leader_done,
    manager_command, manager_done, modal_done, move_picker_done, normal_done, offered, purge_done, reachable,
    sheet_picker_done, stats_done, up, BareAction, Command, Edit, LeaderAction,
};
use crate::keys::{KeyCode, KeyEvent};
use crate::plugin_ui::modal_text;
use crate::text::{opt, opt_or_empty, trimmed};
use crate::types::{InputView, Mode, PluginPane};
use vstd::prelude::*;

verus! {

/// The cursor moves over the line without changing it; a character is typed before the
/// cursor, and the one before it is deleted.
pub proof fn law_the_line_is_edited_at_the_cursor(v: InputView, c: char)
    ensures
        v.before.len() > 0 ==> edited_view(v, Edit::Left) == (InputView {
            before: v.before.take(v.before.len() - 1),
            after: v.before.skip(v.before.len() - 1) + v.after,
        }),
        v.before.len() == 0 ==> edited_view(v, Edit::Left) == v,
        v.after.len() > 0 ==> edited_view(edited_view(v, Edit::Right), Edit::Left) == v,
        v.before.len() > 0 ==> edited_view(edited_view(v, Edit::Left), Edit::Right) == v,
        v.after.len() == 0 ==> edited_view(v, Edit::Right) == v,
        edited_view(v, Edit::Push(c)) == (InputView {
            before: v.before + seq![c],
            after: v.after,
        }),
        v.before.len() > 0 ==> edited_view(v, Edit::Backspace) == (InputView {
            before: v.before.take(v.before.len() - 1),
            after: v.after,
        }),
        v.before.len() == 0 ==> edited_view(v, Edit::Backspace) == v,
        edited_view(v, Edit::Clear).before.len() == 0,
        edited_view(v, Edit::Clear).after.len() == 0,
        edited_view(v, Edit::Nothing) == v,
{
    if v.before.len() > 0 {
        let l = edited_view(v, Edit::Left);
        assert(v.before.drop_last() =~= v.before.take(v.before.len() - 1));
        assert(seq![v.before.last()] =~= v.before.skip(v.before.len() - 1));
        let r = edited_view(l, Edit::Right);
        assert(r.before =~= v.before);
        assert(r.after =~= v.after);
    }
    if v.after.len() > 0 {
        let r = edited_view(v, Edit::Right);
        let l = edited_view(r, Edit::Left);
        assert(l.before =~= v.before);
        assert(l.after =~= v.after);
    }
    assert(v.before.push(c) =~= v.before + seq![c]);
}

/// Every printable character is typed but for `u` with the control key, which clears the
/// line; the arrows move, and no other key but backspace changes the line.
pub proof fn law_characters_are_typed(key: KeyEvent, c: char)
    ensures
        key.code == KeyCode::Char(c) && ' ' <= c <= '~' ==> edit_of(key) == (if c == 'u'
            && key.modifiers.control {
            Edit::Clear
        } else {
            Edit::Push(c)
        }),
        key.code == KeyCode::Char(c) && c < ' ' ==> edit_of(key) is Nothing,
        edit_of(key) is Backspace <==> key.code == KeyCode::Backspace,
        edit_of(key) is Left <==> key.code == KeyCode::Left,
        edit_of(key) is Right <==> key.code == KeyCode::Right,
        edit_of(key) is Push ==> key.code == KeyCode::Char(edit_of(key)->Push_0),
        edit_of(key) is Clear <==> key.code == KeyCode::Char('u') && key.modifiers.control,
{
}

/// A step up or down stays within the list and moves by one where it can.
pub proof fn law_steps_stay_within(i: int, len: int)
    requires
        0 <= i < len,
    ensures
        i > 0 ==> up(i) == i - 1,
        up(0) == 0,
        i < len - 1 ==> down(i, len) == i + 1,
        down(len - 1, len) == len - 1,
        len <= usize::MAX ==> reachable(len) == len,
{
}

/// A command behind the leader comes of its own binding, and none comes where no binding
/// matches.
pub proof fn law_the_leader_obeys_the_bindings(b: Keybinds, key: KeyEvent)
    ensures
        leader_action(b, key) is Cancel <==> key.code == KeyCode::Esc,
        leader_action(b, key) is Quit <==> key.code == KeyCode::Char('q'),
        leader_action(b, key) is NewGoal ==> b.new_goal.matched_by(key),
        leader_action(b, key) is ShowDetails ==> b.show_details.matched_by(key),
        leader_action(b, key) is Help ==> b.help.matched_by(key),
        leader_action(b, key) is Plugins ==> b.plugins.matched_by(key),
        leader_action(b, key) is RunAgent ==> b.run_agent.matched_by(key),
        leader_action(b, key) is AssignRange ==> b.assign_range is Some
            && b.assign_range->0.matched_by(key),
        leader_action(b, key) is Commands ==> b.commands.matched_by(key),
        leader_action(b, key) is GlobalConfig ==> b.global_config.matched_by(key),
        leader_action(b, key) is Sync ==> b.sync.matched_by(key),
        leader_action(b, key) is Sheets ==> b.sheets.matched_by(key),
        leader_action(b, key) is Stats ==> b.stats is Some && b.stats->0.matched_by(key),
        leader_action(b, key) is OpenResult ==> b.open_result is Some && b.open_result->0.matched_by(
            key,
        ),
        leader_action(b, key) is Unknown ==> !(b.new_goal.matched_by(key)
            || b.show_details.matched_by(key) || b.help.matched_by(key) || b.plugins.matched_by(key)
            || b.run_agent.matched_by(key) || bound(b.assign_range, key) || b.commands.matched_by(
            key,
        ) || b.global_config.matched_by(key) || b.sync.matched_by(key) || b.sheets.matched_by(key)
            || bound(b.stats, key) || bound(b.open_result, key)),
        bound(None, key) == false,
        forall|k: crate::config::KeyBinding| #[trigger]
            bound(Some(k), key) <==> k.matched_by(key),
{
}

/// The command behind the leader opens its own page and no other, and leaves the goals and
/// the selection as they are.
#[verifier::rlimit(60)]
pub proof fn law_leader_commands_open_their_page(after: App, before: App, key: KeyEvent, r: Command)
    requires
        leader_done(after, before, key, r),
    ensures
        after.goals == before.goals,
        after.selected == before.selected,
        r is Quit <==> leader_action(before.keybinds, key) is Quit,
        r is OpenHelp <==> leader_action(before.keybinds, key) is Help,
        r is OpenPluginManager <==> leader_action(before.keybinds, key) is Plugins,
        r is OpenCommandMode <==> leader_action(before.keybinds, key) is Commands,
        r is OpenGlobalConfig <==> leader_action(before.keybinds, key) is GlobalConfig,
        r is OpenSheetPicker <==> leader_action(before.keybinds, key) is Sheets,
        r is OpenAgentPicker <==> leader_action(before.keybinds, key) is RunAgent
            && before.current() is Some,
        r is OpenAgentPicker ==> r->OpenAgentPicker_goal_id == before.current()->0.id,
        r is LogSyncInactive <==> leader_action(before.keybinds, key) is Sync
            && !before.sync_attached,
        leader_action(before.keybinds, key) is Stats ==> after.mode is Stats,
        leader_action(before.keybinds, key) is AssignRange ==> after.mode is AssignRange
            && after.input@.before == "@"@ && after.input@.after.len() == 0,
        leader_action(before.keybinds, key) is NewGoal ==> after.mode is AddGoal
            && after.input@.before.len() == 0 && after.input@.after.len() == 0 && (
        before.current() is Some ==> after.mode->AddGoal_parent_id == Some(
            before.current()->0.id,
        )) && (before.current() is None ==> after.mode->AddGoal_parent_id is None),
        leader_action(before.keybinds, key) is OpenResult && before.current() is Some
            ==> after.mode == (Mode::FullResult { goal_id: before.current()->0.id, scroll: 0 }),
        leader_action(before.keybinds, key) is Unknown || leader_action(before.keybinds, key) is Cancel
            ==> after.mode == before.mode && r is Nothing,
        leader_action(before.keybinds, key) is Unknown ==> after.message is Some,
{
}

/// What a key of the goal list means comes of its own binding or of its fixed key, and
/// nothing happens where none matches.
pub proof fn law_the_goal_list_obeys_the_bindings(b: Keybinds, key: KeyEvent)
    ensures
        bare_action(b, key) is CycleStatus ==> b.cycle_status.matched_by(key),
        bare_action(b, key) is Delete ==> b.delete.matched_by(key),
        bare_action(b, key) is EditTitle ==> b.edit_title.matched_by(key),
        bare_action(b, key) is EditDescription ==> b.edit_description.matched_by(key),
        bare_action(b, key) is ToggleComplete ==> b.toggle_complete.matched_by(key),
        bare_action(b, key) is Move ==> b.move_goal.matched_by(key),
        bare_action(b, key) is EditDue ==> b.edit_due is Some && b.edit_due->0.matched_by(key),
        bare_action(b, key) is EditReminder ==> b.edit_reminder is Some
            && b.edit_reminder->0.matched_by(key),
        bare_action(b, key) is EditRepeat ==> b.edit_repeat is Some && b.edit_repeat->0.matched_by(
            key,
        ),
        bare_action(b, key) is AssignRange ==> key.code == KeyCode::Char('@'),
        bare_action(b, key) is Down ==> key.code == KeyCode::Down || key.code == KeyCode::Char('j'),
        bare_action(b, key) is Up ==> key.code == KeyCode::Up || key.code == KeyCode::Char('k'),
        bare_action(b, key) is Disarm ==> key.code == KeyCode::Esc,
        bare_action(b, key) is Nothing ==> !(b.cycle_status.matched_by(key) || b.delete.matched_by(
            key,
        ) || b.edit_title.matched_by(key) || b.edit_description.matched_by(key)
            || b.toggle_complete.matched_by(key) || b.move_goal.matched_by(key) || bound(
            b.edit_due,
            key,
        ) || bound(b.edit_reminder, key) || bound(b.edit_repeat, key) || key.code == KeyCode::Char(
            '@',
        ) || key.code == KeyCode::Down || key.code == KeyCode::Char('j') || key.code == KeyCode::Up
            || key.code == KeyCode::Char('k') || key.code == KeyCode::Esc),
{
}

/// Over the goal list, a key leaves the goals as they are; editing a part of the selected
/// goal begins with this part in the input, and a question asks for this goal.
#[verifier::rlimit(60)]
pub proof fn law_the_goal_list_edits_the_selected_goal(
    after: App,
    before: App,
    key: KeyEvent,
    r: Command,
)
    requires
        bare_done(after, before, key, r),
    ensures
        after.goals == before.goals,
        r is CycleStatus <==> bare_action(before.keybinds, key) is CycleStatus,
        r is ToggleComplete <==> bare_action(before.keybinds, key) is ToggleComplete,
        !(r is CycleStatus || r is ToggleComplete) ==> r is Nothing,
        before.current() is None && !(bare_action(before.keybinds, key) is AssignRange)
            ==> after.mode == before.mode,
        bare_action(before.keybinds, key) is Delete && before.current() is Some ==> after.mode == (
        Mode::ConfirmDelete { goal_id: before.current()->0.id }),
        bare_action(before.keybinds, key) is EditTitle && before.current() is Some ==> after.mode
            == (Mode::EditTitle { goal_id: before.current()->0.id }) && after.input@.before
            == before.current()->0.title@,
        bare_action(before.keybinds, key) is EditDescription && before.current() is Some
            ==> after.mode == (Mode::EditDescription { goal_id: before.current()->0.id })
            && after.input@.before == opt_or_empty(before.current()->0.description),
        bare_action(before.keybinds, key) is EditDue && before.current() is Some ==> after.mode == (
        Mode::EditDue { goal_id: before.current()->0.id }) && after.input@.before == opt_or_empty(
            before.current()->0.due_at,
        ),
        bare_action(before.keybinds, key) is EditReminder && before.current() is Some ==> after.mode
            == (Mode::EditReminder { goal_id: before.current()->0.id }) && after.input@.before
            == opt_or_empty(before.current()->0.remind_at),
        bare_action(before.keybinds, key) is EditRepeat && before.current() is Some ==> after.mode
            == (Mode::EditRepeat { goal_id: before.current()->0.id }) && after.input@.before
            == opt_or_empty(before.current()->0.repeat_rule),
        bare_action(before.keybinds, key) is Up ==> after.selected <= before.selected && (
        before.selected > 0 ==> after.selected == before.selected - 1),
        bare_action(before.keybinds, key) is Down && before.selected < before.rows().len()
            ==> after.selected == before.selected + 1,
        bare_action(before.keybinds, key) is Disarm ==> !after.leader_pending,
{
}

/// The keys that quit do so before anything else; the leader key arms the leader; the key
/// behind it is a command and disarms it.
#[verifier::rlimit(60)]
pub proof fn law_the_leader_is_armed_for_one_key(after: App, before: App, key: KeyEvent, r: Command)
    requires
        normal_done(after, before, key, r),
    ensures
        after.goals == before.goals,
        key.modifiers.control && (key.code == KeyCode::Char('c') || key.code == KeyCode::Char('d'))
            ==> r is Quit && after == before,
        !(key.modifiers.control && (key.code == KeyCode::Char('c') || key.code == KeyCode::Char('d')))
            && before.keybinds.leader.matched_by(key) ==> after.leader_pending && r is Nothing,
        r is BufferKey ==> !before.leader_pending && offered(before, key) is Some
            && r->BufferKey_buffer@ == (offered(before, key)->0).0 && r->BufferKey_name@ == (offered(
            before,
            key,
        )->0).1 && after == before,
        offered(before, key) is Some ==> opt(before.buffer_manager.active) == Some(
            (offered(before, key)->0).0,
        ),
{
}

/// A key that a buffer took does nothing more. Of the others, Esc does nothing, `q` leaves
/// the buffer, and the rest are keys of the goal list.
#[verifier::rlimit(60)]
pub proof fn law_buffers_get_keys_first(
    after: App,
    before: App,
    key: KeyEvent,
    name: Seq<char>,
    handled: bool,
    r: Command,
)
    requires
        buffer_done(after, before, key, name, handled, r),
    ensures
        after.goals == before.goals,
        handled ==> after == before && r is Nothing,
        !handled && name == "q"@ && name != "esc"@ ==> after.buffer_manager.active is None
            && after.buffer_manager.buffers == before.buffer_manager.buffers && r is Nothing,
        !handled && name == "esc"@ ==> after == before && r is Nothing,
        !handled && name != "q"@ && name != "esc"@ ==> bare_done(after, before, key, r),
{
}

/// An input line is committed by Enter with the commit of its mode, and left by Esc with
/// nothing in it.
pub proof fn law_input_is_committed_or_left(after: App, before: App, key: KeyEvent, r: Command)
    requires
        input_done(after, before, key, r),
    ensures
        after.goals == before.goals,
        key.code == KeyCode::Esc ==> after.mode is Normal && after.input@.before.len() == 0
            && after.input@.after.len() == 0 && r is Nothing,
        key.code == KeyCode::Enter ==> after == before,
        key.code == KeyCode::Enter && before.mode is AddGoal ==> r is CommitAddGoal,
        key.code == KeyCode::Enter && before.mode is EditTitle ==> r is CommitEditTitle,
        key.code == KeyCode::Enter && before.mode is EditDescription ==> r is CommitEditDescription,
        key.code == KeyCode::Enter && before.mode is EditDue ==> r is CommitEditDue,
        key.code == KeyCode::Enter && before.mode is EditReminder ==> r is CommitEditReminder,
        key.code == KeyCode::Enter && before.mode is EditRepeat ==> r is CommitEditRepeat,
        key.code != KeyCode::Enter ==> r is Nothing,
        key.code != KeyCode::Enter && key.code != KeyCode::Esc ==> after.mode == before.mode,
        key.code == KeyCode::BackTab ==> after.input@.before.len() == 0 && after.input@.after
            == before.input.text@,
{
}

/// A question is answered by `y` alone, and left by `n`, Esc and, where goals and sheets
/// are deleted, `q`; any other key leaves it open.
pub proof fn law_questions_need_a_yes(after: App, before: App, key: KeyEvent, r: Command)
    ensures
        delete_done(after, before, key, r) ==> (r is ConfirmDelete <==> key.code == KeyCode::Char('y')
            || key.code == KeyCode::Char('Y')) && (!(r is ConfirmDelete) ==> r is Nothing) && (
        key.code == KeyCode::Char('n') || key.code == KeyCode::Char('N') || key.code == KeyCode::Esc
            || key.code == KeyCode::Char('q') ==> after.mode is Normal) && after.goals
            == before.goals,
        purge_done(after, before, key, r) ==> (r is ConfirmPurge <==> key.code == KeyCode::Char('y')
            || key.code == KeyCode::Char('Y')) && (!(r is ConfirmPurge) ==> r is Nothing) && (
        key.code == KeyCode::Char('n') || key.code == KeyCode::Char('N') || key.code == KeyCode::Esc
            ==> after.mode is Normal) && after.goals == before.goals,
        delete_sheet_done(after, before, key, r) ==> (r is ConfirmDeleteSheet <==> key.code
            == KeyCode::Char('y') || key.code == KeyCode::Char('Y')) && (!(r is ConfirmDeleteSheet)
            ==> r is Nothing) && (key.code == KeyCode::Char('n') || key.code == KeyCode::Char('N')
            || key.code == KeyCode::Esc || key.code == KeyCode::Char('q') ==> after.mode
            is SheetPicker) && after.goals == before.goals && after.sheets == before.sheets,
{
}

/// Each operation of the plugin manager has its keys.
pub proof fn law_the_manager_has_its_keys(key: KeyEvent)
    ensures
        manager_command(key) is TogglePluginActive <==> key.code == KeyCode::Enter || key.code
            == KeyCode::Char('a') || key.code == KeyCode::Char(' '),
        manager_command(key) is UninstallPlugin <==> key.code == KeyCode::Char('d') || key.code
            == KeyCode::Delete,
        manager_command(key) is UpdateAllPlugins <==> key.code == KeyCode::Char('u'),
        manager_command(key) is OpenConfigure <==> key.code == KeyCode::Char('c'),
        manager_command(key) is ToggleService <==> key.code == KeyCode::Char('s'),
        manager_command(key) is TogglePluginActive || manager_command(key) is UninstallPlugin
            || manager_command(key) is UpdateAllPlugins || manager_command(key) is OpenConfigure
            || manager_command(key) is ToggleService || manager_command(key) is Nothing,
{
}

/// In the list of plugins, Esc leaves the manager, `i` and `n` begin an install, `?` opens
/// the help, and the arrows move; while the install input has the focus, Esc goes back to
/// the list and Enter searches for what was entered, if anything was.
pub proof fn law_the_manager_has_two_panes(
    after: App,
    before: App,
    key: KeyEvent,
    pane: PluginPane,
    r: Command,
)
    requires
        manager_done(after, before, key, pane, r),
        !key.modifiers.control,
    ensures
        after.goals == before.goals,
        after.installed_plugins == before.installed_plugins,
        pane is Install && key.code == KeyCode::Esc ==> after.mode == (Mode::PluginManager {
            pane: PluginPane::List,
        }),
        pane is Install && key.code == KeyCode::Enter ==> after == before && (r is StartPluginSearch
            <==> trimmed(before.input.text@).len() > 0),
        pane is List && key.code == KeyCode::Esc ==> after.mode is Normal && r is Nothing,
        pane is List && (key.code == KeyCode::Char('i') || key.code == KeyCode::Char('n'))
            ==> after.mode == (Mode::PluginManager { pane: PluginPane::Install })
            && after.input@.before.len() == 0 && after.input@.after.len() == 0,
        pane is List && key.code == KeyCode::Char('?') ==> after.mode is PluginHelp,
        pane is List && (key.code == KeyCode::Up || key.code == KeyCode::Char('k'))
            && before.plugin_selected > 0 ==> after.plugin_selected == before.plugin_selected - 1,
        pane is List && (key.code == KeyCode::Down || key.code == KeyCode::Char('j'))
            && before.plugin_selected + 1 < before.installed_plugins@.len() ==> after.plugin_selected
            == before.plugin_selected + 1,
        pane is List && before.plugin_selected < before.installed_plugins@.len()
            ==> after.plugin_selected < before.installed_plugins@.len(),
{
}

/// While a field is edited, Enter commits it, Esc leaves it, backspace takes a character
/// off its end and a printable one is added there.
pub proof fn law_fields_are_edited_at_their_end(
    after: App,
    before: App,
    key: KeyEvent,
    r: Command,
    commit: Command,
    text: Seq<char>,
    c: char,
)
    requires
        field_done(after, before, key, r, commit),
        opt(before.config_editing) == Some(text),
    ensures
        key.code == KeyCode::Enter ==> after == before && r == commit,
        key.code != KeyCode::Enter ==> r is Nothing && after.mode == before.mode,
        key.code == KeyCode::Esc ==> after.config_editing is None,
        key.code == KeyCode::Backspace && text.len() > 0 ==> opt(after.config_editing) == Some(
            text.take(text.len() - 1),
        ),
        key.code == KeyCode::Char(c) && ' ' <= c <= '~' ==> opt(after.config_editing) == Some(
            text + seq![c],
        ),
        after.config_values == before.config_values && after.global_values == before.global_values,
{
    assert(text.push(c) =~= text + seq![c]);
    if text.len() > 0 {
        assert(text.drop_last() =~= text.take(text.len() - 1));
    }
}

/// In the pickers, Esc and `q` go back to the goal list, the arrows move by one within the
/// list, and Enter takes what is selected.
pub proof fn law_pickers_take_what_is_selected(after: App, before: App, key: KeyEvent, r: Command)
    ensures
        agent_picker_done(after, before, key, r) || move_picker_done(after, before, key, r)
            || sheet_picker_done(after, before, key, r) ==> after.goals == before.goals && (key.code
            == KeyCode::Esc || key.code == KeyCode::Char('q') ==> after.mode is Normal && r
            is Nothing),
        agent_picker_done(after, before, key, r) && key.code == KeyCode::Enter ==> (before.mode
            is AgentPicker ==> r is StartAgentRun && r->StartAgentRun_goal_id
            == before.mode->AgentPicker_goal_id),
        agent_picker_done(after, before, key, r) && (key.code == KeyCode::Down || key.code
            == KeyCode::Char('j')) && before.agent_selected + 1 < before.agent_choices@.len()
            ==> after.agent_selected == before.agent_selected + 1,
        agent_picker_done(after, before, key, r) && (key.code == KeyCode::Up || key.code
            == KeyCode::Char('k')) && before.agent_selected > 0 ==> after.agent_selected
            == before.agent_selected - 1,
        agent_picker_done(after, before, key, r) && before.agent_selected
            < before.agent_choices@.len() ==> after.agent_selected < before.agent_choices@.len(),
        move_picker_done(after, before, key, r) ==> (r is ConfirmMove <==> key.code
            == KeyCode::Enter),
        move_picker_done(after, before, key, r) && (key.code == KeyCode::Down || key.code
            == KeyCode::Char('j')) && before.move_selected + 1 < before.move_choices@.len()
            ==> after.move_selected == before.move_selected + 1,
        move_picker_done(after, before, key, r) && (key.code == KeyCode::Up || key.code
            == KeyCode::Char('k')) && before.move_selected > 0 ==> after.move_selected
            == before.move_selected - 1,
        move_picker_done(after, before, key, r) && before.move_selected < before.move_choices@.len()
            ==> after.move_selected < before.move_choices@.len(),
        sheet_picker_done(after, before, key, r) ==> (r is SelectSheet <==> key.code
            == KeyCode::Enter),
        sheet_picker_done(after, before, key, r) && key.code == KeyCode::Char('n') ==> after.mode
            is AddSheet,
        sheet_picker_done(after, before, key, r) && key.code == KeyCode::Char('d')
            && before.sheet_to_delete() is Some ==> after.mode is ConfirmDeleteSheet
            && after.mode->ConfirmDeleteSheet_sheet_id@ == before.sheet_to_delete()->0,
        sheet_picker_done(after, before, key, r) && (key.code == KeyCode::Down || key.code
            == KeyCode::Char('j')) && before.sheet_picker_selected < before.sheets@.len()
            && before.sheets@.len() < usize::MAX ==> after.sheet_picker_selected
            == before.sheet_picker_selected + 1,
        sheet_picker_done(after, before, key, r) && (key.code == KeyCode::Up || key.code
            == KeyCode::Char('k')) && before.sheet_picker_selected > 0
            ==> after.sheet_picker_selected == before.sheet_picker_selected - 1,
{
}

/// On the settings page, Enter edits the selected field of the host with its value, opens
/// the selected plugin, or asks before all data is deleted, row by row in this order.
pub proof fn law_rows_of_the_settings_page(
    after: App,
    before: App,
    key: KeyEvent,
    r: Command,
    fields: int,
)
    requires
        global_done(after, before, key, r),
        before.config_editing is None,
        key.code == KeyCode::Enter,
        fields == (if before.global_spec is Some {
            before.global_spec->0.fields@.len() as int
        } else {
            0
        }),
    ensures
        before.config_selected < fields ==> r is Nothing && opt(after.config_editing) == Some(
            crate::collections::value_or_empty(
                before.global_values@,
                before.global_spec->0.fields@[before.config_selected as int].key@,
            ),
        ),
        fields <= before.config_selected < fields + before.global_plugin_entries@.len() ==> after
            == before && r is CallPlugin && r->CallPlugin_plugin@
            == before.global_plugin_entries@[before.config_selected - fields].0@
            && r->CallPlugin_call is Configure,
        before.config_selected == fields + before.global_plugin_entries@.len() ==> after.mode
            is ConfirmPurge && r is Nothing,
{
}

/// In the form of a plugin, Esc goes back to the list of plugins, Tab goes on to the next
/// option and the backward tab to the one before.
pub proof fn law_forms_go_back_to_the_manager(after: App, before: App, key: KeyEvent, r: Command)
    requires
        configure_done(after, before, key, r),
        before.config_editing is None,
        before.config_spec is Some,
    ensures
        after.config_values == before.config_values,
        key.code == KeyCode::Esc || key.code == KeyCode::Char('q') ==> after.mode == (
        Mode::PluginManager { pane: PluginPane::List }) && r is Nothing,
        key.code == KeyCode::Tab ==> r == (Command::CycleConfigField { delta: 1 }),
        key.code == KeyCode::BackTab ==> r == (Command::CycleConfigField { delta: -1i32 }),
        key.code == KeyCode::Down && before.config_selected + 1
            < before.config_spec->0.fields@.len() ==> after.config_selected == before.config_selected
            + 1,
        key.code == KeyCode::Up && before.config_selected > 0 ==> after.config_selected
            == before.config_selected - 1,
{
}

/// The help page goes round its tabs and starts each at its top; it is left by Esc, Enter,
/// `q` and `?`.
pub proof fn law_the_help_page_goes_round_its_tabs(after: App, before: App, key: KeyEvent, r: Command)
    requires
        help_done(after, before, key, r),
        before.help_selected < before.help_tabs@.len(),
    ensures
        r is Nothing,
        after.goals == before.goals,
        key.code == KeyCode::Esc || key.code == KeyCode::Enter || key.code == KeyCode::Char('q')
            || key.code == KeyCode::Char('?') ==> after.mode is Normal,
        key.code == KeyCode::Right || key.code == KeyCode::Tab || key.code == KeyCode::Char('l')
            ==> after.help_scroll == 0 && after.help_selected == (if before.help_selected + 1
            == before.help_tabs@.len() {
            0
        } else {
            before.help_selected + 1
        }),
        key.code == KeyCode::Left || key.code == KeyCode::BackTab || key.code == KeyCode::Char('h')
            ==> after.help_scroll == 0 && after.help_selected == (if before.help_selected == 0 {
            before.help_tabs@.len() - 1
        } else {
            before.help_selected - 1
        }),
        (key.code == KeyCode::Up || key.code == KeyCode::Char('k')) && before.help_scroll > 0
            ==> after.help_scroll == before.help_scroll - 1,
        (key.code == KeyCode::Down || key.code == KeyCode::Char('j')) && before.help_scroll
            < usize::MAX ==> after.help_scroll == before.help_scroll + 1,
{
    crate::help::law_steps_lead_to_the_neighbour(
        before.help_selected as int,
        before.help_tabs@.len() as int,
    );
}

/// The full result scrolls by a line or by ten, to its start and to its end, and stays that
/// of its goal until Esc or `q`.
pub proof fn law_results_scroll(after: App, before: App, key: KeyEvent, r: Command)
    requires
        full_result_done(after, before, key, r),
        before.mode is FullResult,
        before.mode->FullResult_scroll + 10 <= usize::MAX,
    ensures
        r is Nothing,
        after.goals == before.goals,
        key.code == KeyCode::Esc || key.code == KeyCode::Char('q') ==> after.mode is Normal,
        key.code != KeyCode::Esc && key.code != KeyCode::Char('q') ==> after.mode is FullResult
            && after.mode->FullResult_goal_id == before.mode->FullResult_goal_id,
        key.code == KeyCode::Down || key.code == KeyCode::Char('j')
            ==> after.mode->FullResult_scroll == before.mode->FullResult_scroll + 1,
        (key.code == KeyCode::Up || key.code == KeyCode::Char('k')) && before.mode->FullResult_scroll
            > 0 ==> after.mode->FullResult_scroll == before.mode->FullResult_scroll - 1,
        key.code == KeyCode::PageDown ==> after.mode->FullResult_scroll
            == before.mode->FullResult_scroll + 10,
        key.code == KeyCode::PageUp && before.mode->FullResult_scroll >= 10
            ==> after.mode->FullResult_scroll == before.mode->FullResult_scroll - 10,
        key.code == KeyCode::PageUp && before.mode->FullResult_scroll < 10
            ==> after.mode->FullResult_scroll == 0,
        key.code == KeyCode::Home ==> after.mode->FullResult_scroll == 0,
{
}

/// The view of a running agent is left by Esc alone, and the statistics by Esc, Enter and
/// `q`.
pub proof fn law_views_are_left(after: App, before: App, key: KeyEvent, r: Command)
    ensures
        agent_running_done(after, before, key, r) ==> r is Nothing && after.goals == before.goals
            && (key.code == KeyCode::Esc ==> after.mode is Normal) && (key.code != KeyCode::Esc
            ==> after == before),
        stats_done(after, before, key, r) ==> r is Nothing && after.goals == before.goals && (
        key.code == KeyCode::Esc || key.code == KeyCode::Enter || key.code == KeyCode::Char('q')
            ==> after.mode is Normal) && (!(key.code == KeyCode::Esc || key.code == KeyCode::Enter
            || key.code == KeyCode::Char('q')) ==> after == before),
{
}

/// Enter commits, takes or runs what its mode is about.
#[verifier::rlimit(60)]
pub proof fn law_enter_commits_in_each_mode(after: App, before: App, key: KeyEvent, r: Command)
    requires
        mode_done(after, before, key, r),
        key.code == KeyCode::Enter,
        !key.modifiers.control,
    ensures
        before.mode is AddGoal ==> r is CommitAddGoal,
        before.mode is EditTitle ==> r is CommitEditTitle,
        before.mode is EditDescription ==> r is CommitEditDescription,
        before.mode is EditDue ==> r is CommitEditDue,
        before.mode is EditReminder ==> r is CommitEditReminder,
        before.mode is EditRepeat ==> r is CommitEditRepeat,
        before.mode is AddSheet ==> r is CommitAddSheet,
        before.mode is AssignRange ==> r is CommitAssignRange,
        before.mode is MovePicker ==> r is ConfirmMove,
        before.mode is SheetPicker ==> r is SelectSheet,
        before.mode is AgentPicker ==> r is StartAgentRun && r->StartAgentRun_goal_id
            == before.mode->AgentPicker_goal_id,
        before.mode is PluginConfigure && before.config_editing is Some ==> r is CommitConfigField,
        before.mode is GlobalConfig && before.config_editing is Some ==> r is CommitGlobalField,
        before.mode is Help || before.mode is Stats ==> after.mode is Normal && r is Nothing,
        before.mode is PluginPanel ==> r is PanelKey && r->PanelKey_name@ == "enter"@,
{
}

/// Esc leaves every mode: for the goal list, and from what was opened over another page, for
/// that page.
#[verifier::rlimit(60)]
pub proof fn law_escape_leaves_each_mode(after: App, before: App, key: KeyEvent, r: Command)
    requires
        mode_done(after, before, key, r),
        key.code == KeyCode::Esc,
        !key.modifiers.control,
    ensures
        before.mode is AddGoal || before.mode is EditTitle || before.mode is EditDescription
            || before.mode is EditDue || before.mode is EditReminder || before.mode is EditRepeat
            || before.mode is AssignRange || before.mode is Help || before.mode is Stats
            || before.mode is FullResult || before.mode is MovePicker || before.mode is SheetPicker
            || before.mode is AgentPicker || before.mode is AgentRunning || before.mode is Command
            || before.mode is ConfirmDelete || before.mode is ConfirmPurge ==> after.mode is Normal
            && r is Nothing,
        before.mode is AddSheet || before.mode is ConfirmDeleteSheet ==> after.mode is SheetPicker
            && r is Nothing,
        before.mode is PluginHelp ==> after.mode == (Mode::PluginManager { pane: PluginPane::List }),
        before.mode is PluginManager && before.mode->PluginManager_pane is List ==> after.mode
            is Normal,
        before.mode is PluginModal ==> r is CancelModal,
        before.mode is GlobalConfig && before.config_editing is None ==> after.mode is Normal,
        (before.mode is GlobalConfig || before.mode is PluginConfigure) && before.config_editing
            is Some ==> after.mode == before.mode && after.config_editing is None,
{
}

/// Each question confirms its own deletion.
pub proof fn law_each_question_confirms_its_own(after: App, before: App, key: KeyEvent, r: Command)
    requires
        mode_done(after, before, key, r),
        key.code == KeyCode::Char('y'),
    ensures
        before.mode is ConfirmDelete ==> r is ConfirmDelete,
        before.mode is ConfirmPurge ==> r is ConfirmPurge,
        before.mode is ConfirmDeleteSheet ==> r is ConfirmDeleteSheet,
{
}

/// On the command line, Enter runs the selected one of the matching commands, the arrows
/// move among them, and what is typed edits the line and keeps the selection on the list.
#[verifier::rlimit(60)]
pub proof fn law_the_command_line_runs_the_selected_match(
    after: App,
    before: App,
    key: KeyEvent,
    r: Command,
)
    requires
        command_done(after, before, key, r),
    ensures
        after.goals == before.goals && after.plugin_commands == before.plugin_commands,
        key.code == KeyCode::Enter && before.command_selected < before.command_list().len() ==> r
            == Command::RunCommand(before.command_list()[before.command_selected as int]),
        key.code == KeyCode::Enter && before.command_list().len() == 0 ==> r is Nothing
            && after.message is Some,
        r is RunCommand ==> key.code == KeyCode::Enter && before.command_list().contains(
            r->RunCommand_0,
        ),
        key.code == KeyCode::Down && before.command_selected + 1 < before.command_list().len()
            ==> after.command_selected == before.command_selected + 1,
        key.code == KeyCode::Up && 0 < before.command_selected < before.command_list().len()
            ==> after.command_selected == before.command_selected - 1,
        key.code == KeyCode::Esc ==> after.mode is Normal && after.input@.before.len() == 0,
        edit_of(key) is Push ==> after.input@ == edited_view(before.input@, edit_of(key)) && (
        after.command_list().len() > 0 ==> after.command_selected < after.command_list().len()),
        before.command_list() == crate::commands::matching(
            before.plugin_commands@,
            crate::text::lowercase(trimmed(before.input.text@)),
        ),
{
    crate::goals::law_a_selection_stays_on_the_list(
        before.command_selected as int,
        before.command_list().len() as int,
    );
    crate::goals::law_a_selection_stays_on_the_list(
        before.command_selected as int,
        after.command_list().len() as int,
    );
    let list = before.command_list();
    if list.len() > 0 {
        let k = crate::goals::within(before.command_selected as int, list.len() as int);
        assert(list.contains(list[k]));
    }
}

/// In a dialog, Enter submits, unless it is held with the shift key where text is entered,
/// and Esc cancels; a question is answered by its letters, and no dialog changes the goals.
#[verifier::rlimit(60)]
pub proof fn law_dialogs_are_submitted_or_cancelled(
    after: App,
    before: App,
    key: KeyEvent,
    r: Command,
    c: char,
)
    requires
        modal_done(after, before, key, r),
        before.plugin_modal is Some,
    ensures
        after.goals == before.goals && after.mode == before.mode,
        r is SubmitModal || r is CancelModal || r is Nothing,
        key.code == KeyCode::Enter && !key.modifiers.shift ==> r is SubmitModal && after == before,
        key.code == KeyCode::Esc ==> r is CancelModal && after == before,
        before.plugin_modal->0.kind is Confirm && (key.code == KeyCode::Char('y') || key.code
            == KeyCode::Char('Y')) ==> r is SubmitModal,
        before.plugin_modal->0.kind is Confirm && (key.code == KeyCode::Char('n') || key.code
            == KeyCode::Char('N')) ==> r is CancelModal,
        before.plugin_modal->0.kind is TextEditor && key.code == KeyCode::Enter
            && key.modifiers.shift ==> r is Nothing && modal_text(after.plugin_modal) == Some(
            modal_text(before.plugin_modal)->0.push('\n'),
        ),
        (before.plugin_modal->0.kind is TextEditor || before.plugin_modal->0.kind is Input)
            && key.code == KeyCode::Char(c) && ' ' <= c <= '~' ==> r is Nothing && modal_text(
            after.plugin_modal,
        ) == Some(modal_text(before.plugin_modal)->0.push(c)),
        before.plugin_modal->0.kind is Pick && before.plugin_modal->0.request is Pick && (key.code
            == KeyCode::Down || key.code == KeyCode::Char('j'))
            && before.plugin_modal->0.kind->Pick_selected + 1
            < before.plugin_modal->0.request->Pick_items@.len()
            ==> after.plugin_modal->0.kind->Pick_selected
            == before.plugin_modal->0.kind->Pick_selected + 1,
        before.plugin_modal->0.kind is Pick && before.plugin_modal->0.request is Pick && (key.code
            == KeyCode::Up || key.code == KeyCode::Char('k')) && 0
            < before.plugin_modal->0.kind->Pick_selected
            < before.plugin_modal->0.request->Pick_items@.len()
            ==> after.plugin_modal->0.kind->Pick_selected
            == before.plugin_modal->0.kind->Pick_selected - 1,
        before.plugin_modal->0.kind is MultiSelect && key.code == KeyCode::Char(' ')
            && before.plugin_modal->0.kind->MultiSelect_cursor
            < before.plugin_modal->0.kind->MultiSelect_selected@.len()
            ==> after.plugin_modal->0.kind->MultiSelect_selected@
            == before.plugin_modal->0.kind->MultiSelect_selected@.update(
            before.plugin_modal->0.kind->MultiSelect_cursor as int,
            !before.plugin_modal->0.kind->MultiSelect_selected@[before.plugin_modal->0.kind->MultiSelect_cursor as int],
        ),
{
}

} // verus!
