//! The whole screen: the bars, what stands between them, and the overlay that a mode
//! lays over it.

use crate::app::App;
use crate::buffers::sorted_ids;
use crate::forms::{
    add_sheet_lines, agent_picker_lines, configure_lines, global_lines, move_lines,
    render_add_sheet, render_agent_picker, render_agent_running, render_full_result,
    render_global_config, render_move_picker, render_plugin_configure, render_sheet_picker,
    result_shown, running_lines, running_title, sheet_picker_lines,
};
use crate::goals::within;
use crate::pages::{
    help_lines, is_manager, plugin_help_lines, purge_lines, InputBox,
    question_lines, render_confirm_delete_sheet, render_delete_confirm, render_help_overlay,
    render_plugin_help, render_plugin_manager, render_purge_confirm,
};
use crate::popups::{
    buffer_lines, command_lines, modal_lines, modal_size, render_command_matches, render_plugin_buffer,
    render_plugin_modal, render_plugin_panel, widget_lines, window_end, window_start, Popup,
};
use crate::theme::Color;
use crate::types::{Mode, Widget};
use crate::ui::{
    buffer_shown, header, hint, input_bar, is_goal_list, render_goal_list, render_header,
    render_hint_bar, render_input_bar, render_sheets_bar, sheets_bar, shown_buffer, GoalList,
};
use crate::view::{bold, one, Line, Page, SpanView};
use vstd::prelude::*;

verus! {

/// What stands between the bars.
#[derive(Debug)]
pub enum Body {
    Goals(GoalList),
    Buffer(Page),
}

/// The screen below its overlay, from top to bottom.
#[derive(Debug)]
pub struct Screen {
    pub header: Line,
    pub sheets: Line,
    pub body: Body,
    pub input: Line,
    pub hint: Line,
}

/// The screen at a time; `drawn` is what the buffer in the place of the goal list draws.
pub fn render(app: &App, drawn: &Widget, now: u64, now_iso: &str) -> (r: Screen)
    requires
        app.wf(),
    ensures
        r.header@ == header(*app, now),
        exists|ids: Seq<Seq<char>>| #[trigger]
            sorted_ids(ids, app.buffer_manager.buffers@.dom()) && r.sheets@ == sheets_bar(*app, ids),
        match buffer_shown(*app) {
            Some(_) => r.body matches Body::Buffer(p) && p@ == buffer_lines(
                *drawn,
                app.theme.colors,
            ),
            None => r.body matches Body::Goals(list) && is_goal_list(list, *app, now_iso@),
        },
        r.input@ == input_bar(*app),
        r.hint@ == one(" "@ + hint(*app), bold(app.theme.colors.on_surface)),
{
    let body = match shown_buffer(app) {
        Some(_) => Body::Buffer(render_plugin_buffer(drawn, &app.theme.colors)),
        None => Body::Goals(render_goal_list(app, now_iso)),
    };
    Screen {
        header: render_header(app, now),
        sheets: render_sheets_bar(app),
        body,
        input: render_input_bar(app),
        hint: render_hint_bar(app),
    }
}

/// What a mode lays over the screen.
#[derive(Debug)]
pub enum Overlay {
    Nothing,
    Popup(Popup),
    /// The plugin manager, with the input of its install pane.
    Manager { input: Option<InputBox>, popup: Popup },
    /// The commands that match, above the input bar.
    Commands(Popup),
    /// The statistics.
    Stats,
    /// A full result: the shown part with the line below it, or an error.
    FullResult(Result<(Popup, Line), Popup>),
}

/// Whether an overlay is a popup with this title, size, border and lines.
pub open spec fn is_popup(
    o: Overlay,
    title: Seq<char>,
    x: int,
    y: int,
    border: Color,
    lines: Seq<Seq<SpanView>>,
) -> bool {
    o matches Overlay::Popup(p) && p.title@ == title && p.percent_x == x && p.percent_y == y
        && p.border == border && p.page@ == lines
}

/// Whether an overlay is the help.
pub open spec fn is_help(o: Overlay, app: App) -> bool {
    is_popup(
        o,
        if app.help_tabs@.len() > 1 {
            " Help ←/→ switch tab — [keybinds] from ~/.config/cordanui/config.toml "@
        } else {
            " Help — [keybinds] from ~/.config/cordanui/config.toml "@
        },
        70,
        70,
        app.theme.colors.primary,
        help_lines(app),
    )
}

/// Whether an overlay is the sheet picker.
pub open spec fn is_sheet_picker(o: Overlay, app: App) -> bool {
    exists|ids: Seq<Seq<char>>| #[trigger]
        sorted_ids(ids, app.buffer_manager.buffers@.dom()) && is_popup(
            o,
            " Sheets — buffers "@,
            60,
            60,
            app.theme.colors.primary,
            sheet_picker_lines(app, ids),
        )
}

/// Whether an overlay is the list of matching commands.
pub open spec fn is_commands(o: Overlay, app: App) -> bool {
    let list = app.command_list();
    let len = list.len() as int;
    let sel = within(app.command_selected as int, len);
    if len == 0 {
        o is Nothing
    } else {
        o matches Overlay::Commands(p) && p.title@ == " Commands "@ && p.percent_x == 60
            && p.percent_y == 30 && p.border == app.theme.colors.outline && p.page@
            == command_lines(
            list,
            sel,
            window_start(len, sel),
            window_end(len, sel),
            app.theme.colors,
        )
    }
}

/// Whether an overlay is the open dialog of a plugin.
pub open spec fn is_modal(o: Overlay, app: App) -> bool {
    match app.plugin_modal {
        Some(m) => {
            let size = modal_size(m.kind);
            is_popup(
                o,
                " "@ + m.request.title_spec() + " "@,
                size.0 as int,
                size.1 as int,
                app.theme.colors.primary,
                modal_lines(m.kind, m.request, app.theme.colors),
            )
        },
        None => o is Nothing,
    }
}

/// Whether an overlay is the one of the mode.
pub open spec fn overlaid(
    o: Overlay,
    app: App,
    panel: Widget,
    millis: u64,
    height: usize,
) -> bool {
    let c = app.theme.colors;
    match app.mode {
        Mode::Help => is_help(o, app),
        Mode::ConfirmDelete { goal_id } => is_popup(
            o,
            " Confirm Delete "@,
            50,
            25,
            c.error,
            question_lines("  Delete this goal and all its subgoals?"@, goal_id@, c),
        ),
        Mode::ConfirmPurge => is_popup(o, " Confirm Purge "@, 56, 30, c.error, purge_lines(c)),
        Mode::PluginManager { pane } => o matches Overlay::Manager { input, popup } && is_manager(
            input,
            popup,
            app,
            pane,
            millis as int,
        ),
        Mode::PluginHelp => is_popup(
            o,
            " Plugin Manager Help "@,
            55,
            55,
            c.primary,
            plugin_help_lines(
                app.keybinds.leader.label_spec(),
                app.keybinds.plugins.label_spec(),
                c,
            ),
        ),
        Mode::PluginConfigure { plugin } => is_popup(
            o,
            " Configure — "@ + plugin@ + " "@,
            64,
            60,
            c.primary,
            configure_lines(app),
        ),
        Mode::AgentPicker { .. } => is_popup(
            o,
            " Run with agent "@,
            56,
            60,
            c.primary,
            agent_picker_lines(app),
        ),
        Mode::MovePicker { .. } => is_popup(o, " Move to… "@, 60, 60, c.primary, move_lines(app)),
        Mode::SheetPicker => is_sheet_picker(o, app),
        Mode::AddSheet => is_popup(o, " New sheet "@, 50, 22, c.primary, add_sheet_lines(app)),
        Mode::ConfirmDeleteSheet { sheet_id } => is_popup(
            o,
            " Confirm Delete Sheet "@,
            50,
            25,
            c.error,
            question_lines("  Delete this sheet? Goals become orphaned to All."@, sheet_id@, c),
        ),
        Mode::AgentRunning { goal_id } => is_popup(
            o,
            running_title(app, goal_id@),
            64,
            55,
            c.primary,
            running_lines(app, millis),
        ),
        Mode::PluginModal => is_modal(o, app),
        Mode::PluginPanel => match app.plugin_panel {
            Some(title) => is_popup(
                o,
                " "@ + title@ + " "@,
                60,
                70,
                c.primary,
                widget_lines(panel, c),
            ),
            None => o is Nothing,
        },
        Mode::Command => is_commands(o, app),
        Mode::GlobalConfig => is_popup(
            o,
            " Global Settings "@,
            64,
            60,
            c.primary,
            global_lines(app),
        ),
        Mode::Stats => o is Stats,
        Mode::FullResult { goal_id, scroll } => o matches Overlay::FullResult(r) && result_shown(
            r,
            app,
            goal_id@,
            scroll as int,
            height as int,
        ),
        _ => o is Nothing,
    }
}

fn popup_or_nothing(p: Option<Popup>) -> (r: Overlay)
    ensures
        match p {
            Some(q) => r == Overlay::Popup(q),
            None => r is Nothing,
        },
{
    match p {
        Some(q) => Overlay::Popup(q),
        None => Overlay::Nothing,
    }
}

/// What the mode lays over the screen; `panel` is what the open panel draws, and
/// `height` the lines that a full result has room for.
pub fn overlay(app: &App, panel: &Widget, millis: u64, height: usize) -> (r: Overlay)
    ensures
        overlaid(r, *app, *panel, millis, height),
{
    let c = &app.theme.colors;
    match &app.mode {
        Mode::Help => Overlay::Popup(render_help_overlay(app)),
        Mode::ConfirmDelete { goal_id } => Overlay::Popup(
            render_delete_confirm(goal_id.as_str(), c),
        ),
        Mode::ConfirmPurge => Overlay::Popup(render_purge_confirm(c)),
        Mode::PluginManager { pane } => {
            let (input, popup) = render_plugin_manager(app, *pane, millis);
            Overlay::Manager { input, popup }
        },
        Mode::PluginHelp => Overlay::Popup(render_plugin_help(app)),
        Mode::PluginConfigure { plugin } => Overlay::Popup(
            render_plugin_configure(app, plugin.as_str()),
        ),
        Mode::AgentPicker { .. } => Overlay::Popup(render_agent_picker(app)),
        Mode::MovePicker { .. } => Overlay::Popup(render_move_picker(app)),
        Mode::SheetPicker => Overlay::Popup(render_sheet_picker(app)),
        Mode::AddSheet => Overlay::Popup(render_add_sheet(app)),
        Mode::ConfirmDeleteSheet { sheet_id } => Overlay::Popup(
            render_confirm_delete_sheet(sheet_id.as_str(), c),
        ),
        Mode::AgentRunning { goal_id } => Overlay::Popup(
            render_agent_running(app, goal_id.as_str(), millis),
        ),
        Mode::PluginModal => popup_or_nothing(render_plugin_modal(app)),
        Mode::PluginPanel => popup_or_nothing(render_plugin_panel(app, panel)),
        Mode::Command => match render_command_matches(app) {
            Some(p) => Overlay::Commands(p),
            None => Overlay::Nothing,
        },
        Mode::GlobalConfig => Overlay::Popup(render_global_config(app)),
        Mode::Stats => Overlay::Stats,
        Mode::FullResult { goal_id, scroll } => Overlay::FullResult(
            render_full_result(app, goal_id.as_str(), *scroll, height),
        ),
        _ => Overlay::Nothing,
    }
}

} // verus!
