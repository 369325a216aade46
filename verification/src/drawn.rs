//! Laws of what is drawn: how the lines on the screen relate to the state that they show.

use crate::app::App;
use crate::goals::glyph;
use crate::json::{object_of, string_of, value_of};
use crate::popups::{
    across, command_lines, list_lines, modal_lines, multi_lines, pick_lines, shown_text, stacked,
    tallest, widget_lines, window_end, window_start,
};
use crate::schema::{AgentStatus, Goal, GoalSheet, GoalStatus};
use crate::text::{decimal, opt, times, trimmed, truncated};
use crate::theme::Palette;
use crate::tree::{partially_complete, unique_ids, Row};
use crate::types::{ago, PluginCommand, PluginModalKind, SyncStatus, UiRequest, Widget};
use crate::ui::{
    agent_lines, bar_cursor, bar_label, bar_text, below, buffer_shown, buffer_tabs,
    completed, first_lines, goal_line, goal_lines, goals_listed, header, hint, input_bar,
    opt_label, overdue, partial_row, progress_text, sheet_tabs, sheets_bar, since,
    status_color, sync_color, sync_text,
};
use crate::view::{Page, SpanView, Style};
use vstd::prelude::*;

verus! {

/// The number of completed goals is that of the goals whose status says so.
pub proof fn law_done_goals_are_counted(goals: Seq<Goal>)
    ensures
        completed(goals) == goals.filter(|g: Goal| g.status == GoalStatus::Completed).len(),
    decreases goals.len(),
{
    reveal(Seq::filter);
    if goals.len() > 0 {
        law_done_goals_are_counted(goals.drop_last());
    }
}

/// The header tells how many goals are done, how many there are, and how many are left.
pub proof fn law_the_header_counts(app: App, now: u64, done: nat, left: nat)
    requires
        done == app.goals@.filter(|g: Goal| g.status == GoalStatus::Completed).len(),
        done + left == app.goals@.len(),
    ensures
        header(app, now).len() == 4,
        header(app, now)[1].text == " · "@ + app.theme.name@ + " "@,
        header(app, now)[2].text == " "@ + decimal(done) + " / "@ + decimal(app.goals@.len())
            + " done · "@ + decimal(left) + " pending"@,
        header(app, now)[3].text == " · "@ + sync_text(app.sync_status, now),
{
    law_done_goals_are_counted(app.goals@);
}

/// The state of the sync is told in words, with the time that has passed since, and with
/// the reason of a failure; each state has its color.
pub proof fn law_the_sync_is_told(at: u64, now: u64, error: String, c: Palette)
    ensures
        at <= now ==> since(at, now) == now - at,
        at > now ==> since(at, now) == 0,
        sync_text(SyncStatus::Synced { at }, now) == "synced "@ + ago(since(at, now)),
        sync_text(SyncStatus::Failed { at, error }, now) == "sync failed "@ + ago(since(at, now))
            + " — "@ + truncated(error@, 40),
        sync_text(SyncStatus::NotConfigured, now) == "sync off"@,
        sync_text(SyncStatus::Syncing, now) == "syncing…"@,
        sync_color(SyncStatus::Synced { at }, c) == c.success,
        sync_color(SyncStatus::Failed { at, error }, c) == c.error,
        sync_color(SyncStatus::NotConfigured, c) == c.outline_variant,
        sync_color(SyncStatus::Syncing, c) == c.on_surface_variant,
{
}

/// A goal is overdue where its due date has passed and it is not done.
pub proof fn law_done_goals_are_never_overdue(g: Goal, now: Seq<char>)
    ensures
        g.status == GoalStatus::Completed ==> !overdue(g, now),
        g.due_at is None ==> !overdue(g, now),
        g.status != GoalStatus::Completed && g.due_at is Some ==> (overdue(g, now)
            <==> crate::text::str_less(g.due_at->0@, now)),
{
}

/// The line of a goal is indented by two spaces for each level, folds where it has
/// something below it, and shows its mark and its title, crossed out once it is done.
pub proof fn law_goals_show_their_place_and_state(
    row: Row,
    partial: bool,
    now: Seq<char>,
    c: Palette,
)
    ensures
        goal_line(row, partial, now, c)[0].text == times("  "@, row.depth as nat),
        row.has_children && row.expanded ==> goal_line(row, partial, now, c)[1].text == "▾ "@,
        row.has_children && !row.expanded ==> goal_line(row, partial, now, c)[1].text == "▸ "@,
        !row.has_children ==> goal_line(row, partial, now, c)[1].text == "  "@,
        partial ==> goal_line(row, partial, now, c)[2].text == "◎"@ + " "@ && goal_line(
            row,
            partial,
            now,
            c,
        )[2].style.fg == Some(c.success),
        !partial ==> goal_line(row, partial, now, c)[2].text == glyph(row.goal.status) + " "@
            && goal_line(row, partial, now, c)[2].style.fg == Some(status_color(row.goal.status, c)),
        goal_line(row, partial, now, c)[3].text == row.goal.title@,
        goal_line(row, partial, now, c)[3].style.crossed_out <==> row.goal.status
            == GoalStatus::Completed,
{
}

/// A goal with a due date, a reminder or a repeat rule shows each of them behind its title,
/// in this order, and an overdue date in the color of errors.
pub proof fn law_goals_show_their_dates(row: Row, partial: bool, now: Seq<char>, c: Palette)
    ensures
        row.goal.due_at is Some ==> goal_line(row, partial, now, c)[4].text == "  📅 "@
            + row.goal.due_at->0@ && goal_line(row, partial, now, c)[4].style.fg == Some(
            if overdue(row.goal, now) {
                c.error
            } else {
                c.tertiary
            },
        ),
        row.goal.remind_at is Some ==> goal_line(row, partial, now, c)[if row.goal.due_at is Some {
            5int
        } else {
            4
        }].text == "  ⏰ "@ + row.goal.remind_at->0@,
        row.goal.repeat_rule is Some && row.goal.repeat_rule->0@.len() > 0
            && row.goal.repeat_rule->0@ != "none"@ ==> goal_line(row, partial, now, c).last().text
            == "  ↻ "@ + row.goal.repeat_rule->0@,
        goal_line(row, partial, now, c).len() == 4 + (if row.goal.due_at is Some {
            1int
        } else {
            0
        }) + (if row.goal.remind_at is Some {
            1int
        } else {
            0
        }) + (if row.goal.repeat_rule is Some && row.goal.repeat_rule->0@.len() > 0
            && row.goal.repeat_rule->0@ != "none"@ {
            1int
        } else {
            0
        }),
{
}

/// Each status has its color.
pub proof fn law_statuses_have_their_color(c: Palette)
    ensures
        status_color(GoalStatus::Pending, c) == c.on_surface_variant,
        status_color(GoalStatus::InProgress, c) == c.primary,
        status_color(GoalStatus::Completed, c) == c.success,
        status_color(GoalStatus::AgentMode, c) == c.tertiary,
{
}

/// The bar has a tab for each sheet, in their order and under its name; the active one
/// alone stands out.
pub proof fn law_sheets_have_their_tab(
    sheets: Seq<GoalSheet>,
    active: Option<Seq<char>>,
    c: Palette,
    i: int,
)
    requires
        0 <= i < sheets.len(),
    ensures
        sheet_tabs(sheets, active, c).len() == 2 * sheets.len(),
        sheet_tabs(sheets, active, c)[2 * i].text == " "@ + sheets[i].name@ + " "@,
        sheet_tabs(sheets, active, c)[2 * i].style.bg is Some <==> active == Some(sheets[i].id@),
    decreases sheets.len(),
{
    let t = sheets.drop_last();
    if t.len() > 0 {
        law_sheets_have_their_tab(t, active, c, if i < t.len() {
            i
        } else {
            0
        });
    } else {
        assert(sheet_tabs(t, active, c).len() == 0);
    }
    assert(sheet_tabs(t, active, c).len() == 2 * t.len());
    if i < t.len() {
        assert(t[i] == sheets[i]);
    } else {
        assert(sheets.last() == sheets[i]);
    }
}

/// Behind the sheets the bar has a tab for each buffer under the name that it was given;
/// the active one alone stands out.
pub proof fn law_buffers_have_their_tab(
    ids: Seq<Seq<char>>,
    active: Option<Seq<char>>,
    c: Palette,
    i: int,
    name: Seq<char>,
)
    requires
        0 <= i < ids.len(),
    ensures
        buffer_tabs(ids, active, c).len() == 2 * ids.len(),
        ids[i] == crate::buffers::buffer_id(name) ==> buffer_tabs(ids, active, c)[2 * i].text == " "@
            + name + " "@,
        buffer_tabs(ids, active, c)[2 * i].style.bg is Some <==> active == Some(ids[i]),
    decreases ids.len(),
{
    let t = ids.drop_last();
    if t.len() > 0 {
        law_buffers_have_their_tab(t, active, c, if i < t.len() {
            i
        } else {
            0
        }, name);
    } else {
        assert(buffer_tabs(t, active, c).len() == 0);
    }
    assert(buffer_tabs(t, active, c).len() == 2 * t.len());
    crate::buffers::law_buffers_are_told_apart(name, name);
    if i < t.len() {
        assert(t[i] == ids[i]);
    } else {
        assert(ids.last() == ids[i]);
    }
}

proof fn lemma_first_lines(
    parts: Seq<Seq<char>>,
    max: int,
    lead: Seq<char>,
    style: Style,
)
    requires
        max >= 0,
    ensures
        first_lines(parts, max, lead, false, style).len() == (if parts.len() <= max {
            parts.len() as int
        } else {
            max
        }),
        forall|i: int|
            0 <= i < first_lines(parts, max, lead, false, style).len() ==> (#[trigger] first_lines(
                parts,
                max,
                lead,
                false,
                style,
            )[i]) == below(lead + parts[i], style),
    decreases parts.len(),
{
    if parts.len() > 0 {
        lemma_first_lines(parts.drop_last(), max, lead, style);
    }
}

/// Of some texts the first ones are shown, as many as there is room for, each behind the
/// lead.
pub proof fn law_the_first_lines_are_shown(
    parts: Seq<Seq<char>>,
    max: int,
    lead: Seq<char>,
    style: Style,
    i: int,
)
    requires
        max >= 0,
    ensures
        first_lines(parts, max, lead, false, style).len() == (if parts.len() <= max {
            parts.len() as int
        } else {
            max
        }),
        0 <= i < max && i < parts.len() ==> first_lines(parts, max, lead, false, style)[i].last().text
            == lead + parts[i] && first_lines(parts, max, lead, false, style)[i].last().style
            == style,
{
    lemma_first_lines(parts, max, lead, style);
}

/// Blank lines of a result are left out, and no more lines are shown than there is room
/// for.
pub proof fn law_blank_lines_are_left_out(
    parts: Seq<Seq<char>>,
    max: int,
    lead: Seq<char>,
    style: Style,
)
    requires
        max >= 0,
    ensures
        first_lines(parts, max, lead, true, style).len() <= max,
        parts.len() > 0 && trimmed(parts.last()).len() == 0 ==> first_lines(
            parts,
            max,
            lead,
            true,
            style,
        ) == first_lines(parts.drop_last(), max, lead, true, style),
        0 < parts.len() <= max && trimmed(parts.last()).len() > 0 ==> first_lines(
            parts,
            max,
            lead,
            true,
            style,
        ).last().last().text == lead + parts.last(),
    decreases parts.len(),
{
    lemma_at_most(parts, max, lead, style);
}

proof fn lemma_at_most(parts: Seq<Seq<char>>, max: int, lead: Seq<char>, style: Style)
    requires
        max >= 0,
    ensures
        first_lines(parts, max, lead, true, style).len() <= max,
        first_lines(parts, max, lead, true, style).len() <= parts.len(),
    decreases parts.len(),
{
    if parts.len() > 0 {
        lemma_at_most(parts.drop_last(), max, lead, style);
    }
}

/// The state of a run is named below its goal, in its own word.
pub proof fn law_runs_are_named(g: Goal, indent: Seq<char>, c: Palette)
    ensures
        g.agent_status is None ==> agent_lines(g, indent, c).len() == 0,
        g.agent_status is Some ==> agent_lines(g, indent, c).len() > 0 && agent_lines(
            g,
            indent,
            c,
        )[0].last().text == indent + "      ↳ "@ + (match g.agent_status->0 {
            AgentStatus::Queued => "queued"@,
            AgentStatus::Running => "running"@,
            AgentStatus::Completed => "completed"@,
            AgentStatus::Failed => "failed"@,
        }),
{
}

/// The description is shown below a goal whose details are shown, and below no other.
pub proof fn law_details_are_shown_below(
    row: Row,
    partial: bool,
    now: Seq<char>,
    c: Palette,
)
    ensures
        goal_lines(row, partial, false, now, c).len() == 1,
        goal_lines(row, partial, true, now, c).len() >= 2,
        goal_lines(row, partial, true, now, c)[0] == goal_lines(row, partial, false, now, c)[0],
        row.goal.description is Some ==> goal_lines(row, partial, true, now, c)[1].last().text
            == times("  "@, row.depth as nat) + "      "@ + row.goal.description->0@,
        row.goal.description is None ==> goal_lines(row, partial, true, now, c)[1].last().text
            == times("  "@, row.depth as nat) + "      "@ + "(no description)"@,
{
}

/// While something is entered, the bar shows it, with a cursor behind it where a goal or a
/// sheet is entered; the armed leader is shown with its key.
pub proof fn law_the_bar_shows_what_is_entered(app: App)
    ensures
        input_bar(app).len() == 4,
        input_bar(app)[1].text == bar_label(app),
        input_bar(app)[2].text == bar_text(app),
        app.mode is AddGoal || app.mode is EditTitle || app.mode is EditDescription || app.mode
            is EditDue || app.mode is EditReminder || app.mode is EditRepeat || app.mode is AddSheet
            ==> bar_text(app) == app.input.text@ && bar_cursor(app.mode) && input_bar(app)[3].text
            == "│"@,
        app.mode is Command || app.mode is AssignRange ==> bar_text(app) == app.input.text@,
        app.mode is Normal || app.mode is Help || app.mode is Stats ==> bar_text(app).len() == 0
            && input_bar(app)[3].text.len() == 0,
        app.leader_pending ==> input_bar(app)[0].text == " LEADER ("@
            + app.keybinds.leader.label_spec() + ") "@,
        !app.leader_pending ==> input_bar(app)[0].text.len() == 0,
        app.mode is Normal && app.message is Some && app.message->0@.len() > 0 ==> bar_label(app)
            == " "@ + app.message->0@ + " "@,
        app.mode is Normal && app.message is None ==> bar_label(app) == " NORMAL "@,
{
}

/// The list of commands shows each under its name, from the first that is shown on, and the
/// selected one with a mark.
pub proof fn law_commands_are_shown_in_order(
    s: Seq<PluginCommand>,
    selected: int,
    start: int,
    end: int,
    c: Palette,
    i: int,
)
    requires
        0 <= start <= i < end <= s.len(),
    ensures
        command_lines(s, selected, start, end, c).len() == end - start,
        command_lines(s, selected, start, end, c)[i - start][0].text == (if i == selected {
            "▶ "@
        } else {
            "  "@
        }) + s[i].name@,
        command_lines(s, selected, start, end, c)[i - start][1].text == "  — "@ + s[i].desc@,
{
}

/// At most eight commands are shown, all of them where there are no more.
pub proof fn law_eight_commands_are_shown(len: int, selected: int)
    requires
        0 <= selected < len,
    ensures
        len <= 8 ==> window_start(len, selected) == 0 && window_end(len, selected) == len,
        len > 8 ==> window_end(len, selected) - window_start(len, selected) == 8
            && window_end(len, selected) <= len && window_start(len, selected) >= 0,
        window_start(len, selected) <= selected < window_end(len, selected),
        4 <= selected && selected + 4 < len && len > 8 ==> selected - window_start(len, selected)
            == 4,
{
}

/// The items of a choice are shown in order, the selected one alone with a mark and filled.
pub proof fn law_the_selected_item_is_marked(items: Seq<String>, selected: int, c: Palette, i: int)
    requires
        0 <= i < items.len(),
    ensures
        pick_lines(items, selected, c).len() == items.len(),
        pick_lines(items, selected, c)[i][0].text == "  "@ + (if i == selected {
            "▸ "@
        } else {
            "  "@
        }) + items[i]@,
        pick_lines(items, selected, c)[i][0].style.bg is Some <==> i == selected,
{
}

/// The items of a multiple choice are shown in order, with a cross in the box of each that
/// is chosen, and the one under the cursor filled.
pub proof fn law_chosen_items_are_crossed(
    items: Seq<String>,
    on: Seq<bool>,
    cursor: int,
    c: Palette,
    i: int,
)
    requires
        items.len() == on.len(),
        0 <= i < items.len(),
    ensures
        multi_lines(items, on, cursor, c).len() == items.len(),
        multi_lines(items, on, cursor, c)[i][0].text == "  "@ + (if on[i] {
            "[x]"@
        } else {
            "[ ]"@
        }) + " "@ + items[i]@,
        multi_lines(items, on, cursor, c)[i][0].style.bg is Some <==> i == cursor,
{
}

/// A list shows its items in order and fills the highlighted one alone.
pub proof fn law_lists_show_their_items(
    items: Seq<String>,
    highlight: Option<usize>,
    c: Palette,
    i: int,
)
    requires
        0 <= i < items.len() <= usize::MAX,
    ensures
        list_lines(items, highlight, c).len() == items.len(),
        list_lines(items, highlight, c)[i][0].text == "  "@ + items[i]@,
        list_lines(items, highlight, c)[i][0].style.bg is Some <==> highlight == Some(i as usize),
{
}

/// A column shows its parts below each other, in order.
pub proof fn law_columns_are_stacked(children: Vec<Widget>, n: int, c: Palette)
    requires
        0 < n <= children@.len(),
    ensures
        stacked(children, 0, c).len() == 0,
        stacked(children, n, c) == stacked(children, n - 1, c) + widget_lines(children@[n - 1], c),
        widget_lines(Widget::Column { children }, c) == stacked(children, children@.len() as int, c),
{
}

/// A row is as tall as its tallest part.
pub proof fn law_rows_are_as_tall_as_their_parts(cols: Seq<Seq<Seq<SpanView>>>, i: int)
    ensures
        0 <= i < cols.len() ==> cols[i].len() <= tallest(cols),
        cols.len() > 0 ==> exists|k: int|
            0 <= k < cols.len() && (#[trigger] cols[k]).len() == tallest(cols),
    decreases cols.len(),
{
    if cols.len() > 0 {
        let t = cols.drop_last();
        law_rows_are_as_tall_as_their_parts(t, i);
        if cols.last().len() > tallest(t) || t.len() == 0 {
            assert(cols[cols.len() - 1].len() == tallest(cols));
        } else {
            let k = choose|k: int| 0 <= k < t.len() && (#[trigger] t[k]).len() == tallest(t);
            assert(cols[k].len() == tallest(cols));
        }
        if 0 <= i < t.len() {
            assert(t[i] == cols[i]);
        }
    }
}

/// The parts of a row stand side by side, with one bar between two of them.
pub proof fn law_bars_stand_between_columns(
    a: Seq<Seq<SpanView>>,
    b: Seq<Seq<SpanView>>,
    i: int,
    c: Palette,
)
    requires
        0 <= i < a.len(),
        i < b.len(),
    ensures
        across(seq![a], i, c) == a[i],
        across(seq![a, b], i, c).len() == a[i].len() + 1 + b[i].len(),
        across(seq![a, b], i, c)[a[i].len() as int].text == " │ "@,
{
    let one = seq![a];
    let two = seq![a, b];
    assert(one.drop_last() =~= Seq::empty());
    assert(across(one.drop_last(), i, c) =~= Seq::empty());
    assert(one.last() == a);
    assert(across(one, i, c) =~= a[i]);
    assert(two.drop_last() =~= one);
    assert(two.last() == b);
}

/// A dialog shows what was typed, and its placeholder before anything was.
pub proof fn law_placeholders_stand_in(buffer: Seq<char>, placeholder: Option<String>)
    ensures
        buffer.len() > 0 ==> shown_text(buffer, placeholder) == buffer,
        buffer.len() == 0 && placeholder is Some ==> shown_text(buffer, placeholder)
            == placeholder->0@,
        buffer.len() == 0 && placeholder is None ==> shown_text(buffer, placeholder).len() == 0,
{
}

/// The bar of sheets starts with the tab of all goals, which stands out where neither a
/// sheet nor a buffer is shown.
pub proof fn law_the_bar_starts_with_all_goals(app: App, ids: Seq<Seq<char>>, i: int)
    ensures
        sheets_bar(app, ids)[0].text == " "@ + "All"@ + " "@,
        sheets_bar(app, ids)[0].style.bg is Some <==> app.sheet_manager.active is None
            && app.buffer_manager.active is None,
        0 <= i < app.sheets@.len() ==> sheets_bar(app, ids)[2 + 2 * i].text == " "@
            + app.sheets@[i].name@ + " "@,
        0 <= i < ids.len() ==> sheets_bar(app, ids)[2 + 2 * app.sheets@.len() + 2 * i]
            == buffer_tabs(ids, opt(app.buffer_manager.active), app.theme.colors)[2 * i],
{
    let c = app.theme.colors;
    let active = opt(app.sheet_manager.active);
    if app.sheets@.len() > 0 {
        law_sheets_have_their_tab(app.sheets@, active, c, if 0 <= i < app.sheets@.len() {
            i
        } else {
            0
        });
    } else {
        assert(sheet_tabs(app.sheets@, active, c).len() == 0);
    }
    if 0 <= i < ids.len() {
        law_buffers_have_their_tab(ids, opt(app.buffer_manager.active), c, i, Seq::empty());
    }
}

/// A progress report shows its message and, where there is one, its detail behind it; a
/// report without a message is shown itself.
pub proof fn law_progress_shows_message_and_detail(
    report: Seq<char>,
    m: Map<Seq<char>, Seq<char>>,
    message: Seq<char>,
    detail: Seq<char>,
)
    requires
        value_of(report) is Some,
        object_of(report) == Some(m),
        m.contains_key("message"@),
        string_of(m["message"@]) == Some(message),
    ensures
        !m.contains_key("detail"@) ==> progress_text(report) == Some(message),
        m.contains_key("detail"@) && string_of(m["detail"@]) == Some(detail) && detail.len() > 0
            ==> progress_text(report) == Some(message + " — "@ + detail),
        m.contains_key("detail"@) && string_of(m["detail"@]) == Some(detail) && detail.len() == 0
            ==> progress_text(report) == Some(message),
{
}

/// A dialog shows its items, its question or its text.
pub proof fn law_dialogs_show_what_they_ask(kind: PluginModalKind, request: UiRequest, c: Palette)
    ensures
        kind is Pick && request is Pick ==> modal_lines(kind, request, c) == pick_lines(
            request->Pick_items@,
            kind->Pick_selected as int,
            c,
        ),
        kind is MultiSelect && request is MultiSelect ==> modal_lines(kind, request, c)
            == multi_lines(
            request->MultiSelect_items@,
            kind->MultiSelect_selected@,
            kind->MultiSelect_cursor as int,
            c,
        ),
        kind is Confirm && request is Confirm ==> modal_lines(kind, request, c).last()[0].text
            == "  "@ + request->Confirm_message@,
        kind is Input && request is Input ==> modal_lines(kind, request, c).last()[1].text
            == shown_text(kind->Input_buffer@, kind->Input_placeholder),
        kind is TextEditor && request is Text ==> modal_lines(kind, request, c).len() == 1
            + crate::text::split(
            shown_text(kind->TextEditor_buffer@, kind->TextEditor_placeholder),
            '\n',
        ).len(),
{
}

/// A buffer takes the place of the goal list while it is the active one and is there.
pub proof fn law_active_buffers_are_shown(app: App)
    ensures
        app.buffer_manager.active is None ==> buffer_shown(app) is None,
        app.buffer_manager.active is Some && app.buffer_manager.buffers@.contains_key(
            app.buffer_manager.active->0@,
        ) ==> buffer_shown(app) == Some(app.buffer_manager.active->0@),
        app.buffer_manager.active is Some && !app.buffer_manager.buffers@.contains_key(
            app.buffer_manager.active->0@,
        ) ==> buffer_shown(app) is None,
{
}

/// The goal list has a page for each visible row, in their order, whose first line is that
/// of its goal, and the details of the detailed goal alone.
pub proof fn law_the_goal_list_shows_the_rows(r: Seq<Page>, app: App, now: Seq<char>, i: int)
    requires
        goals_listed(r, app, now),
        0 <= i < app.rows().len(),
    ensures
        r.len() == app.rows().len() + 1,
        r[i]@[0] == goal_line(
            app.rows()[i],
            partial_row(app, app.rows()[i]),
            now,
            app.theme.colors,
        ),
        r[i]@.len() > 1 <==> opt(app.detailed) == Some(app.rows()[i].goal.id@),
{
    law_details_are_shown_below(
        app.rows()[i],
        partial_row(app, app.rows()[i]),
        now,
        app.theme.colors,
    );
}

/// A row is marked as partly done exactly where its goal is: something below it is not
/// completed.
pub proof fn law_rows_are_partly_done_as_their_goals(app: App, row: Row, k: int)
    requires
        unique_ids(app.goals@),
        0 <= k < app.goals@.len(),
        row.goal.id@ == app.goals@[k].id@,
    ensures
        partial_row(app, row) <==> partially_complete(app.goals@, app.goals@[k]),
{
    if partially_complete(app.goals@, app.goals@[k]) {
        assert(app.goals@[k].id@ == row.goal.id@);
    }
    if partial_row(app, row) {
        let i = choose|i: int|
            0 <= i < app.goals@.len() && (#[trigger] app.goals@[i]).id@ == row.goal.id@
                && partially_complete(app.goals@, app.goals@[i]);
        if i < k {
            assert(app.goals@[i].id@ != app.goals@[k].id@);
        } else if k < i {
            assert(app.goals@[k].id@ != app.goals@[i].id@);
        }
    }
}

/// The bar names the mode; a new goal below another is named a subgoal.
pub proof fn law_the_bar_names_the_mode(app: App)
    ensures
        app.mode is FullResult ==> bar_label(app) == " Full result "@,
        app.mode is EditTitle ==> bar_label(app) == " Edit title: "@,
        app.mode is EditDescription ==> bar_label(app) == " Edit description: "@,
        app.mode is EditDue ==> bar_label(app) == " Due: "@,
        app.mode is EditReminder ==> bar_label(app) == " Remind: "@,
        app.mode is EditRepeat ==> bar_label(app) == " Repeat: "@,
        app.mode is ConfirmDelete ==> bar_label(app) == " DELETE "@,
        app.mode is ConfirmPurge ==> bar_label(app) == " CONFIRM PURGE "@,
        app.mode is Help ==> bar_label(app) == " HELP "@,
        app.mode is AgentPicker ==> bar_label(app) == " AGENT "@,
        app.mode is AgentRunning ==> bar_label(app) == " AGENT "@,
        app.mode is MovePicker ==> bar_label(app) == " MOVE "@,
        app.mode is SheetPicker ==> bar_label(app) == " SHEET "@,
        app.mode is AddSheet ==> bar_label(app) == " New sheet: "@,
        app.mode is ConfirmDeleteSheet ==> bar_label(app) == " DELETE SHEET "@,
        app.mode is PluginModal ==> bar_label(app) == " PLUGIN DIALOG "@,
        app.mode is PluginPanel ==> bar_label(app) == " PLUGIN PANEL "@,
        app.mode is Command ==> bar_label(app) == " COMMAND "@,
        app.mode is AssignRange ==> bar_label(app) == " Assign @1-6: "@,
        app.mode is GlobalConfig ==> bar_label(app) == " GLOBAL SETTINGS "@,
        app.mode is Stats ==> bar_label(app) == " STATS "@,
        app.mode is AddGoal && app.mode->AddGoal_parent_id is None ==> bar_label(app)
            == " Add goal: "@,
        app.mode is AddGoal && app.mode->AddGoal_parent_id is Some ==> bar_label(app)
            == " Add subgoal: "@,
        app.mode is PluginManager && app.message is None ==> bar_label(app) == " PLUGIN "@,
        app.mode is PluginManager && app.message is Some ==> bar_label(app) == " "@
            + app.message->0@ + " "@,
        app.mode is ConfirmDelete || app.mode is ConfirmDeleteSheet || app.mode is ConfirmPurge
            ==> input_bar(app)[1].style.fg == Some(app.theme.colors.error),
        app.mode is Normal ==> input_bar(app)[1].style.fg == Some(app.theme.colors.outline_variant),
        app.mode is AddGoal || app.mode is EditTitle ==> input_bar(app)[1].style.fg == Some(
            app.theme.colors.primary,
        ),
        app.mode is Command || app.mode is GlobalConfig || app.mode is AssignRange ==> input_bar(
            app,
        )[1].style.fg == Some(app.theme.colors.secondary),
{
}

/// The goal list hints at the keys that are bound.
pub proof fn law_the_hint_names_the_keys(app: App)
    requires
        app.mode is Normal,
    ensures
        app.leader_pending ==> hint(app) == "leader active — "@ + app.keybinds.new_goal.label_spec()
            + " new goal (subgoal if expanded) · "@ + app.keybinds.show_details.label_spec()
            + " details/subgoals · "@ + app.keybinds.help.label_spec() + " help · Esc cancel"@,
        !app.leader_pending ==> crate::text::starts_with(
            hint(app),
            "leader · leader+"@ + app.keybinds.new_goal.label_spec(),
        ),
        opt_label(None) == "unbound"@,
        app.keybinds.edit_due is Some ==> opt_label(app.keybinds.edit_due)
            == app.keybinds.edit_due->0.label_spec(),
{
    if !app.leader_pending {
        let k = app.keybinds;
        let front = "leader · leader+"@ + k.new_goal.label_spec();
        let rest = " new · leader+"@ + k.show_details.label_spec() + " details · leader+"@
            + k.help.label_spec() + " help · "@ + opt_label(k.edit_due) + " due · "@ + opt_label(
            k.edit_reminder,
        ) + " remind · "@ + opt_label(k.edit_repeat) + " repeat"@;
        assert(hint(app) =~= front + rest);
        crate::text::law_a_text_holds_its_parts(Seq::empty(), front, rest);
    }
}

} // verus!
