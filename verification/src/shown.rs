//! Laws of the popups: how the pages, the forms and the pickers relate to what they show.

use crate::app::App;
use crate::config::EntryView;
use crate::db::PluginRow;
use crate::forms::{
    choice_lines, configure_lines, dots, entry_lines, field_line, field_lines, field_text,
    first_shown, global_lines, host_line, host_lines, move_lines, picker_sheets, purge_line,
    result_lines, running_title, sheet_picker_lines, shown_lines, target_lines,
};
use crate::pages::{
    binding_line, help_bar, last_of, log_lines, plugin_lines, question_lines, rows_of_text, task_lines,
    without_return,
};
use crate::plugins::TaskState;
use crate::popups::cell;
use crate::schema::{Goal, GoalSheet};
use crate::screen::{overlaid, Overlay};
use crate::text::{lemma_first_index, lemma_first_index_is, lemma_times_char, split, truncated};
use crate::theme::Palette;
use crate::types::{AgentChoice, HelpTab, UiField, Widget};
use vstd::prelude::*;

verus! {

/// A secret is shown as dots: as many as it has characters, and twenty-four at most.
pub proof fn law_secrets_are_dots(s: Seq<char>, i: int)
    ensures
        s.len() <= 24 ==> dots(s).len() == s.len(),
        s.len() > 24 ==> dots(s).len() == 24,
        0 <= i < dots(s).len() ==> dots(s)[i] == '•',
{
    reveal_strlit("•");
    assert("•"@ =~= seq!['•']);
    lemma_times_char('•', if s.len() <= 24 {
        s.len()
    } else {
        24
    });
}

/// A secret that is set is never shown itself: two secrets of the same length are shown
/// alike, by a plugin and by the host.
pub proof fn law_secrets_are_never_shown(
    f: UiField,
    a: Seq<char>,
    b: Seq<char>,
    selected: bool,
    c: Palette,
)
    requires
        f.kind@ == "secret"@,
        a.len() == b.len(),
        a.len() > 0,
    ensures
        field_text(f, a, None) == field_text(f, b, None),
        host_line(f, a, selected, None, c) == host_line(f, b, selected, None, c),
{
    reveal_strlit("secret");
    reveal_strlit("select");
    assert("secret"@[2] != "select"@[2]);
    assert(dots(a) =~= dots(b));
}

/// A field shows what is being typed while it is edited, else its value, and a note where
/// it has none.
pub proof fn law_fields_show_their_value(f: UiField, value: Seq<char>, typed: Seq<char>)
    ensures
        field_text(f, value, Some(typed)) == typed + "│"@,
        f.kind@ != "secret"@ && f.kind@ != "select"@ && value.len() > 0 ==> field_text(
            f,
            value,
            None,
        ) == value,
        f.kind@ != "select"@ && value.len() == 0 ==> field_text(f, value, None) == "(not set)"@,
        crate::settings::is_choice(f) && value.len() > 0 ==> field_text(f, value, None) == "◂ "@
            + value + " ▸"@,
{
}

/// The line of a field shows its label, its value and whether it has to be filled in; the
/// selected one has a mark and shows what is being typed.
pub proof fn law_field_lines_show_label_and_value(
    f: UiField,
    value: Seq<char>,
    editing: Option<Seq<char>>,
    c: Palette,
)
    ensures
        field_line(f, value, true, editing, c).len() == 4,
        field_line(f, value, true, editing, c)[0].text == " "@ + "▶ "@,
        field_line(f, value, false, editing, c)[0].text == " "@ + "  "@,
        field_line(f, value, true, editing, c)[1].text == cell(f.label@, 14),
        field_line(f, value, false, editing, c)[1].text == cell(f.label@, 14),
        field_line(f, value, true, editing, c)[2].text == field_text(f, value, editing),
        field_line(f, value, false, editing, c)[2].text == field_text(f, value, None),
        f.required ==> field_line(f, value, true, editing, c)[3].text == "  "@ + "* · "@ + f.kind@,
        !f.required ==> field_line(f, value, true, editing, c)[3].text == "  "@ + Seq::empty()
            + f.kind@,
{
}

/// A form has a line for each field with its value, and a plugin's page two lines above
/// them.
pub proof fn law_forms_show_each_field(app: App, fields: Seq<UiField>, i: int)
    requires
        0 <= i < fields.len(),
    ensures
        field_lines(app, fields).len() == fields.len(),
        field_lines(app, fields)[i][1].text == cell(fields[i].label@, 14),
        i == app.config_selected ==> field_lines(app, fields)[i][0].text == " "@ + "▶ "@,
        i != app.config_selected ==> field_lines(app, fields)[i][0].text == " "@ + "  "@,
        i != app.config_selected && app.config_values@.contains_key(fields[i].key@) ==> field_lines(
            app,
            fields,
        )[i][2].text == field_text(fields[i], app.config_values@[fields[i].key@], None),
        host_lines(app, fields).len() == fields.len(),
        host_lines(app, fields)[i][1].text == cell(fields[i].label@, 14),
        i == app.config_selected ==> host_lines(app, fields)[i][0].text == " "@ + "▶ "@,
        i != app.config_selected && fields[i].kind@ != "secret"@ && app.global_values@.contains_key(
            fields[i].key@,
        ) && app.global_values@[fields[i].key@].len() > 0 ==> host_lines(app, fields)[i][2].text
            == app.global_values@[fields[i].key@],
        app.config_spec is Some && app.config_spec->0.fields@ == fields ==> configure_lines(app).len()
            == fields.len() + 2 && configure_lines(app)[i + 2] == field_lines(app, fields)[i],
{
}

/// The settings page has a row for each field of the host, each plugin and the purge, and
/// the mark stands in front of the selected one alone.
pub proof fn law_the_settings_page_marks_the_selected_row(app: App, fields: Seq<UiField>, i: int)
    requires
        app.global_spec is Some,
        fields == app.global_spec->0.fields@,
    ensures
        0 <= i < fields.len() ==> global_lines(app)[1 + i] == host_lines(app, fields)[i],
        0 <= i < app.global_plugin_entries@.len() ==> global_lines(app)[3 + fields.len() + i][0].text
            == " "@ + (if fields.len() + i == app.config_selected {
            "▶ "@
        } else {
            "  "@
        }) && global_lines(app)[3 + fields.len() + i][1].text == cell(
            app.global_plugin_entries@[i].0@,
            14,
        ) && global_lines(app)[3 + fields.len() + i][2].text == app.global_plugin_entries@[i].1@,
        global_lines(app).last() == purge_line(
            app.config_selected == fields.len() + app.global_plugin_entries@.len(),
            app.theme.colors,
        ),
        purge_line(true, app.theme.colors)[0].text == " "@ + "▶ "@,
        purge_line(false, app.theme.colors)[0].text == " "@ + "  "@,
{
    let entries = app.global_plugin_entries@;
    if 0 <= i < entries.len() {
        assert(entry_lines(app, entries, fields.len() as int)[i][1].text == cell(
            entries[i].0@,
            14,
        ));
    }
}

/// The pickers show their choices in order, with a mark in front of the selected one alone.
pub proof fn law_pickers_mark_the_selected_choice(
    choices: Seq<AgentChoice>,
    targets: Seq<(Option<String>, String)>,
    sheets: Seq<GoalSheet>,
    selected: int,
    c: Palette,
    i: int,
)
    ensures
        choice_lines(choices, selected, c).len() == choices.len(),
        0 <= i < choices.len() ==> choice_lines(choices, selected, c)[i][0].text == " "@ + (if i
            == selected {
            "▶ "@
        } else {
            "  "@
        }) && choice_lines(choices, selected, c)[i][2].text == choices[i].plugin@ && (
        choices[i].model is Some ==> choice_lines(choices, selected, c)[i][1].text == cell(
            choices[i].model->0@,
            24,
        )),
        target_lines(targets, selected, c).len() == targets.len(),
        0 <= i < targets.len() ==> target_lines(targets, selected, c)[i][0].text == " "@ + (if i
            == selected {
            "▶ "@
        } else {
            "  "@
        }) && target_lines(targets, selected, c)[i][1].text == truncated(targets[i].1@, 50),
        picker_sheets(sheets, selected, c).len() == sheets.len(),
        0 <= i < sheets.len() ==> picker_sheets(sheets, selected, c)[i][0].text == " "@ + (if i + 1
            == selected {
            "▶ "@
        } else {
            "  "@
        }) && picker_sheets(sheets, selected, c)[i][1].text == truncated(
            "▭  "@ + sheets[i].name@,
            40,
        ),
{
}

/// The sheet picker shows all goals, the sheets and the buffers below each other, and the
/// mark stands in the row that the picker is on.
pub proof fn law_the_sheet_picker_shows_all_rows(app: App, ids: Seq<Seq<char>>, i: int)
    ensures
        sheet_picker_lines(app, ids).len() == app.sheets@.len() + ids.len() + 5,
        sheet_picker_lines(app, ids)[2][0].text == " "@ + (if app.sheet_picker_selected == 0 {
            "▶ "@
        } else {
            "  "@
        }),
        0 <= i < app.sheets@.len() ==> sheet_picker_lines(app, ids)[3 + i] == picker_sheets(
            app.sheets@,
            app.sheet_picker_selected as int,
            app.theme.colors,
        )[i],
        0 <= i < ids.len() ==> sheet_picker_lines(app, ids)[3 + app.sheets@.len() + i][0].text
            == " "@ + (if app.sheets@.len() + 1 + i == app.sheet_picker_selected {
            "▶ "@
        } else {
            "  "@
        }),
{
}

/// The move picker shows its choices below two lines.
pub proof fn law_the_move_picker_shows_its_choices(app: App, i: int)
    requires
        0 <= i < app.move_choices@.len(),
    ensures
        move_lines(app).len() == app.move_choices@.len() + 2,
        move_lines(app)[i + 2] == target_lines(
            app.move_choices@,
            app.move_selected as int,
            app.theme.colors,
        )[i],
{
}

/// A text is shown line by line: a line break ends a line, with or without a carriage
/// return before it, and nothing behind the last one is no line.
pub proof fn law_texts_are_shown_line_by_line(line: Seq<char>, rest: Seq<char>)
    requires
        forall|i: int| 0 <= i < line.len() ==> line[i] != '\n',
    ensures
        rows_of_text(line + seq!['\n'] + rest) == seq![without_return(line)] + rows_of_text(rest),
        line.len() > 0 ==> rows_of_text(line) == seq![line],
        rows_of_text(Seq::empty()).len() == 0,
        without_return(line + seq!['\r']) == line,
        line.len() > 0 && line.last() != '\r' ==> without_return(line) == line,
{
    lemma_first_index(line, '\n');
    let s = line + seq!['\n'] + rest;
    lemma_first_index_is(s, '\n', line.len() as int);
    assert(s.take(line.len() as int) =~= line);
    assert(s.skip(line.len() as int + 1) =~= rest);
    let parts = split(s, '\n');
    let tail = split(rest, '\n');
    assert(parts == seq![line] + tail);
    crate::text::law_splitting_is_undone_by_joining(rest, '\n');
    assert(parts.last() == tail.last());
    assert(rows_of_text(s) =~= seq![without_return(line)] + rows_of_text(rest));
    let e = Seq::<char>::empty();
    lemma_first_index(e, '\n');
    assert(split(e, '\n') =~= seq![e]);
    assert(rows_of_text(e) =~= Seq::empty());
    if line.len() > 0 {
        assert(split(line, '\n') =~= seq![line]);
        assert(rows_of_text(line) =~= seq![line]);
    }
    assert((line + seq!['\r']).drop_last() =~= line);
}

/// Of a log its end is shown.
pub proof fn law_the_end_of_a_log_is_shown(s: Seq<Seq<char>>, max: int, c: Palette, i: int)
    requires
        0 <= max,
    ensures
        s.len() <= max ==> last_of(s, max) == s,
        s.len() > max ==> last_of(s, max).len() == max && (0 <= i < max ==> last_of(s, max)[i]
            == s[s.len() - max + i]),
        log_lines(s, c).len() == s.len(),
        0 <= i < s.len() ==> log_lines(s, c)[i][0].text == "   "@ + s[i],
{
}

/// A binding is shown with its keys, what it does and its name, and with whether it is the
/// default.
pub proof fn law_bindings_are_shown(e: EntryView, c: Palette)
    ensures
        binding_line(e, c).len() == 3,
        binding_line(e, c)[0].text == "    "@ + crate::text::padded_right(
            e.binding.label_spec(),
            14,
        ),
        binding_line(e, c)[1].text == crate::text::padded_right(e.desc, 46),
        e.is_default ==> binding_line(e, c)[2].text == e.name + " (default)"@,
        !e.is_default ==> binding_line(e, c)[2].text == e.name + " (custom)"@,
{
}

/// The help page has its tabs in a bar, the selected one in brackets.
pub proof fn law_the_selected_tab_is_in_brackets(
    tabs: Seq<HelpTab>,
    selected: int,
    c: Palette,
    i: int,
)
    requires
        0 <= i < tabs.len(),
    ensures
        help_bar(tabs, selected, c).len() == 2 * tabs.len() + 1,
        i == selected ==> help_bar(tabs, selected, c)[2 * i + 1].text == "[ "@ + tabs[i].title@
            + " ]"@,
        i != selected ==> help_bar(tabs, selected, c)[2 * i + 1].text == "  "@ + tabs[i].title@
            + "  "@,
    decreases tabs.len(),
{
    let t = tabs.drop_last();
    if t.len() > 0 {
        law_the_selected_tab_is_in_brackets(t, selected, c, if i < t.len() {
            i
        } else {
            0
        });
    } else {
        assert(help_bar(t, selected, c).len() == 1);
    }
    assert(help_bar(t, selected, c).len() == 2 * t.len() + 1);
    if i < t.len() {
        assert(t[i] == tabs[i]);
    } else {
        assert(tabs.last() == tabs[i]);
    }
}

/// A plugin is listed with its id, whether it is active, and its source.
pub proof fn law_plugins_are_listed(s: Seq<PluginRow>, selected: int, c: Palette, i: int)
    requires
        0 <= i < s.len(),
    ensures
        plugin_lines(s, selected, c).len() == s.len(),
        plugin_lines(s, selected, c)[i].len() == 4,
        plugin_lines(s, selected, c)[i][0].text == " "@ + (if i == selected {
            "▶ "@
        } else {
            "  "@
        }),
        plugin_lines(s, selected, c)[i][1].text == cell(s[i].id@, 18),
        plugin_lines(s, selected, c)[i][2].style.fg == Some(
            if s[i].active {
                c.success
            } else {
                c.outline_variant
            },
        ),
        plugin_lines(s, selected, c)[i][3].text == truncated(s[i].source@, 34),
{
}

/// A question shows the id of what it is about, and the keys that answer it.
pub proof fn law_questions_show_the_id(question: Seq<char>, id: Seq<char>, c: Palette)
    ensures
        question_lines(question, id, c).len() == 6,
        question_lines(question, id, c)[1][0].text == question,
        question_lines(question, id, c)[3][0].text == "  id: "@ + id,
        question_lines(question, id, c)[5][0].text == "  y"@,
        question_lines(question, id, c)[5][2].text == "n"@,
{
}

/// The view of a result starts where it was scrolled to, but not so far that a page of it
/// would not be filled, and shows a page.
pub proof fn law_results_fill_a_page(scroll: int, total: int, height: int)
    requires
        0 <= scroll,
        0 < height <= total,
    ensures
        first_shown(scroll, total, height) <= scroll,
        scroll + height <= total ==> first_shown(scroll, total, height) == scroll,
        scroll + height > total ==> first_shown(scroll, total, height) == total - height,
        shown_lines(first_shown(scroll, total, height), total, height) == height,
{
}

/// A goal without a run says so; one with a result shows it, below its state.
pub proof fn law_results_are_shown(g: Goal, c: Palette)
    ensures
        g.agent_status is None && g.agent_result is None && g.agent_progress is None
            ==> result_lines(g, c).len() == 1 && result_lines(g, c)[0][0].text
            == "(no result yet)"@,
        g.agent_status is Some ==> result_lines(g, c).len() >= 2 && result_lines(g, c)[0][0].text
            == "Status: "@ + crate::ui::agent_word(g.agent_status->0),
        g.agent_status is None && g.agent_result is None && g.agent_progress is Some
            ==> result_lines(g, c)[0][0].text == "Progress:"@,
{
}

/// The view of a running agent is titled by its goal.
pub proof fn law_running_agents_are_titled_by_their_goal(app: App, k: int)
    requires
        0 <= k < app.goals@.len(),
        forall|i: int, j: int|
            0 <= i < j < app.goals@.len() ==> (#[trigger] app.goals@[i]).id@ != (
            #[trigger] app.goals@[j]).id@,
    ensures
        running_title(app, app.goals@[k].id@) == " Agent — "@ + truncated(
            app.goals@[k].title@,
            30,
        ) + " "@,
{
    crate::goals::law_goals_are_found_by_id(app.goals@, app.goals@[k], app.goals@[k].id@);
}

/// Each mode with a popup has the one with its title.
pub proof fn law_popups_are_titled_by_the_mode(
    o: Overlay,
    app: App,
    panel: Widget,
    millis: u64,
    height: usize,
)
    requires
        overlaid(o, app, panel, millis, height),
    ensures
        app.mode is ConfirmDelete ==> o is Popup && o->Popup_0.title@ == " Confirm Delete "@,
        app.mode is ConfirmPurge ==> o is Popup && o->Popup_0.title@ == " Confirm Purge "@,
        app.mode is ConfirmDeleteSheet ==> o is Popup && o->Popup_0.title@
            == " Confirm Delete Sheet "@,
        app.mode is AgentPicker ==> o is Popup && o->Popup_0.title@ == " Run with agent "@,
        app.mode is MovePicker ==> o is Popup && o->Popup_0.title@ == " Move to… "@
            && o->Popup_0.page@ == move_lines(app),
        app.mode is SheetPicker ==> o is Popup && o->Popup_0.title@ == " Sheets — buffers "@,
        app.mode is AddSheet ==> o is Popup && o->Popup_0.title@ == " New sheet "@,
        app.mode is GlobalConfig ==> o is Popup && o->Popup_0.title@ == " Global Settings "@
            && o->Popup_0.page@ == global_lines(app),
        app.mode is PluginHelp ==> o is Popup && o->Popup_0.title@ == " Plugin Manager Help "@,
        app.mode is PluginManager ==> o is Manager,
        app.mode is PluginConfigure ==> o is Popup && o->Popup_0.page@ == configure_lines(app),
        app.mode is Stats ==> o is Stats,
        app.mode is FullResult ==> o is FullResult,
        app.mode is Normal || app.mode is AddGoal || app.mode is EditTitle || app.mode
            is EditDescription ==> o is Nothing,
{
}

/// The plugin manager tells how its task ended: what was installed and where, what was not
/// found, or what went wrong.
pub proof fn law_tasks_tell_how_they_ended(
    name: String,
    dir: String,
    theme_count: usize,
    text: String,
    log: Vec<String>,
    millis: int,
    c: Palette,
)
    ensures
        task_lines(TaskState::Idle, millis, c).len() == 0,
        task_lines(TaskState::Installed { name, dir, theme_count }, millis, c).len() == 2,
        task_lines(TaskState::Installed { name, dir, theme_count }, millis, c)[0][0].text
            == " ✓ Installed "@ + name@ + crate::manager::theme_note(theme_count as nat),
        task_lines(TaskState::Installed { name, dir, theme_count }, millis, c)[1][0].text
            == "   at "@ + dir@,
        task_lines(TaskState::NotFound(text), millis, c)[0][0].text == " No repo found for '"@ + text@
            + "'."@,
        task_lines(TaskState::Error(text), millis, c)[0][0].text == " Error: "@ + text@,
        task_lines(TaskState::Error(text), millis, c)[0][0].style.fg == Some(c.error),
        log@.len() <= 8 ==> task_lines(TaskState::Working(log), millis, c).len() == log@.len() + 1,
        log@.len() > 8 ==> task_lines(TaskState::Working(log), millis, c).len() == 9,
        log@.len() > 0 ==> task_lines(TaskState::Working(log), millis, c).last()[0].text == "   "@
            + log@.last()@,
        crate::manager::theme_note(0).len() == 0,
{
}

} // verus!
