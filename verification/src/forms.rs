//! What the forms, the pickers and the views of agent runs show.

use crate::app::App;
use crate::buffers::sorted_ids;
use crate::collections::value_or_empty;
use crate::goals::{find_goal, goal_with};
use crate::json::{parse_under, value_of};
use crate::pages::{last_of, log_lines, point, pointer, put_log};
use crate::popups::{cell, cell_text, cursor_mark, spinner, spinner_frame, text_lines, Popup};
use crate::schema::{Goal, GoalSheet};
use crate::settings::is_choice;
use crate::text::{
    concat, decimal, from_chars, number, opt, repeat, split, split_chars, str_eq, texts, times,
    to_chars, truncated, views,
};
use crate::theme::Palette;
use crate::types::{AgentChoice, UiField};
use crate::ui::{agent_name, agent_word, buffer_label, label_of_buffer, text_member, truncate_str};
use crate::view::{
    blank, bold, bold_if, concat3, concat4, filled, ink, no_lines, one, span, Line, Page, SpanView,
    Style,
};
use vstd::prelude::*;

verus! {

/// A secret: a dot for each character, at most twenty-four.
pub open spec fn dots(s: Seq<char>) -> Seq<char> {
    times(
        "•"@,
        if s.len() <= 24 {
            s.len()
        } else {
            24
        },
    )
}

fn masked(s: &str) -> (r: String)
    ensures
        r@ == dots(s@),
{
    let n: usize = to_chars(s).len();
    repeat(
        "•",
        if n <= 24 {
            n
        } else {
            24
        },
    )
}

// ---------- the form of a plugin ----------

/// What a field of a plugin shows: what is being typed, the chosen option, dots
/// for a secret, or the value.
pub open spec fn field_text(f: UiField, value: Seq<char>, editing: Option<Seq<char>>) -> Seq<char> {
    if editing is Some {
        editing->0 + "│"@
    } else if is_choice(f) {
        "◂ "@ + (if value.len() == 0 {
            "(not set)"@
        } else {
            value
        }) + " ▸"@
    } else if f.kind@ == "secret"@ && value.len() > 0 {
        dots(value)
    } else if value.len() == 0 {
        "(not set)"@
    } else {
        value
    }
}

/// The style of what a field shows.
pub open spec fn field_style(
    f: UiField,
    value: Seq<char>,
    selected: bool,
    editing: bool,
    c: Palette,
) -> Style {
    if editing {
        bold(c.primary)
    } else if is_choice(f) && selected {
        bold(c.secondary)
    } else if value.len() == 0 {
        ink(c.outline_variant)
    } else {
        ink(c.on_background)
    }
}

/// The line of a field of a plugin.
pub open spec fn field_line(
    f: UiField,
    value: Seq<char>,
    selected: bool,
    editing: Option<Seq<char>>,
    c: Palette,
) -> Seq<SpanView> {
    let typed = if selected {
        editing
    } else {
        None
    };
    blank().push(pointer(selected, c)).push(
        span(cell(f.label@, 14), bold_if(c.on_background, selected)),
    ).push(
        span(field_text(f, value, typed), field_style(f, value, selected, typed is Some, c)),
    ).push(
        span(
            "  "@ + (if f.required {
                "* · "@
            } else {
                Seq::empty()
            }) + f.kind@,
            ink(c.outline_variant),
        ),
    )
}

fn text_of_field(f: &UiField, value: &str, editing: &Option<String>) -> (r: String)
    ensures
        r@ == field_text(*f, value@, opt(*editing)),
{
    if let Some(t) = editing {
        return concat(t.as_str(), "│");
    }
    let choice = str_eq(f.kind.as_str(), "select") && f.options.len() > 0;
    if choice {
        let shown = if value.is_empty() {
            "(not set)"
        } else {
            value
        };
        return concat3("◂ ", shown, " ▸");
    }
    if str_eq(f.kind.as_str(), "secret") && !value.is_empty() {
        return masked(value);
    }
    if value.is_empty() {
        "(not set)".to_string()
    } else {
        value.to_owned()
    }
}

fn render_field(f: &UiField, value: &str, selected: bool, editing: &Option<String>, c: &Palette) -> (r:
    Line)
    ensures
        r@ == field_line(*f, value@, selected, opt(*editing), *c),
{
    let none: Option<String> = None;
    let typed = if selected {
        editing
    } else {
        &none
    };
    let choice = str_eq(f.kind.as_str(), "select") && f.options.len() > 0;
    let style = if typed.is_some() {
        bold(c.primary)
    } else if choice && selected {
        bold(c.secondary)
    } else if value.is_empty() {
        ink(c.outline_variant)
    } else {
        ink(c.on_background)
    };
    let empty = String::new();
    assert(empty@ =~= Seq::empty());
    let star = if f.required {
        "* · "
    } else {
        empty.as_str()
    };
    point(selected, c).put(
        cell_text(f.label.as_str(), 14).as_str(),
        bold_if(c.on_background, selected),
    ).put(text_of_field(f, value, typed).as_str(), style).put(
        concat3("  ", star, f.kind.as_str()).as_str(),
        ink(c.outline_variant),
    )
}

/// Whether a form has a choice.
pub open spec fn has_choice(fields: Seq<UiField>) -> bool {
    exists|i: int| 0 <= i < fields.len() && is_choice(#[trigger] fields[i])
}

fn any_choice(fields: &Vec<UiField>) -> (r: bool)
    ensures
        r == has_choice(fields@),
{
    let mut i: usize = 0;
    while i < fields.len()
        invariant
            i <= fields@.len(),
            forall|k: int| 0 <= k < i ==> !is_choice(#[trigger] fields@[k]),
        decreases fields@.len() - i,
    {
        if str_eq(fields[i].kind.as_str(), "select") && fields[i].options.len() > 0 {
            assert(is_choice(fields@[i as int]));
            return true;
        }
        i = i + 1;
    }
    false
}

/// The lines of the fields of a plugin.
pub open spec fn field_lines(app: App, fields: Seq<UiField>) -> Seq<Seq<SpanView>> {
    Seq::new(
        fields.len(),
        |i: int|
            field_line(
                fields[i],
                value_or_empty(app.config_values@, fields[i].key@),
                i == app.config_selected,
                opt(app.config_editing),
                app.theme.colors,
            ),
    )
}

/// The form of a plugin.
pub open spec fn configure_lines(app: App) -> Seq<Seq<SpanView>> {
    let c = app.theme.colors;
    match app.config_spec {
        Some(form) => no_lines().push(
            one(
                if has_choice(form.fields@) {
                    "  ↑↓ field · Tab cycle select · Enter edit · Esc back"@
                } else {
                    "  ↑↓ select · Enter edit · Enter save · Esc back"@
                },
                ink(c.outline_variant),
            ),
        ).push(blank()) + field_lines(app, form.fields@),
        None => no_lines(),
    }
}

/// The form of a plugin.
pub fn render_plugin_configure(app: &App, plugin: &str) -> (r: Popup)
    ensures
        r.title@ == " Configure — "@ + plugin@ + " "@,
        r.percent_x == 64,
        r.percent_y == 60,
        r.border == app.theme.colors.primary,
        r.page@ == configure_lines(*app),
{
    let c = &app.theme.colors;
    let title = concat3(" Configure — ", plugin, " ");
    let form = match &app.config_spec {
        Some(form) => form,
        None => {
            return Popup { title, percent_x: 64, percent_y: 60, border: c.primary, page: Page::new() };
        },
    };
    let head = if any_choice(&form.fields) {
        "  ↑↓ field · Tab cycle select · Enter edit · Esc back"
    } else {
        "  ↑↓ select · Enter edit · Enter save · Esc back"
    };
    let mut page = Page::new().one(head, ink(c.outline_variant)).blank();
    let ghost start = page@;
    for i in 0..form.fields.len()
        invariant
            c == &app.theme.colors,
            page@ =~= start + field_lines(*app, form.fields@.take(i as int)),
    {
        let f = &form.fields[i];
        let value = app.config_values.get_or_empty(f.key.as_str());
        page = page.line(
            render_field(f, value.as_str(), i == app.config_selected, &app.config_editing, c),
        );
    }
    assert(form.fields@.take(form.fields@.len() as int) =~= form.fields@);
    Popup { title, percent_x: 64, percent_y: 60, border: c.primary, page }
}

// ---------- the form of the host ----------

/// The line of a field of the host.
pub open spec fn host_line(
    f: UiField,
    value: Seq<char>,
    selected: bool,
    editing: Option<Seq<char>>,
    c: Palette,
) -> Seq<SpanView> {
    let typed = selected && editing is Some;
    let text = if typed {
        editing->0 + "│"@
    } else if f.kind@ == "secret"@ && value.len() > 0 {
        dots(value)
    } else if value.len() == 0 {
        "(not set — local-only)"@
    } else {
        value
    };
    let style = if typed {
        bold(c.primary)
    } else if value.len() == 0 {
        ink(c.outline_variant)
    } else {
        ink(c.on_background)
    };
    blank().push(pointer(selected, c)).push(
        span(cell(f.label@, 14), bold_if(c.on_background, selected)),
    ).push(span(text, style))
}

fn render_host_field(
    f: &UiField,
    value: &str,
    selected: bool,
    editing: &Option<String>,
    c: &Palette,
) -> (r: Line)
    ensures
        r@ == host_line(*f, value@, selected, opt(*editing), *c),
{
    let line = point(selected, c).put(
        cell_text(f.label.as_str(), 14).as_str(),
        bold_if(c.on_background, selected),
    );
    if selected {
        if let Some(t) = editing {
            return line.put(concat(t.as_str(), "│").as_str(), bold(c.primary));
        }
    }
    if value.is_empty() {
        line.put("(not set — local-only)", ink(c.outline_variant))
    } else if str_eq(f.kind.as_str(), "secret") {
        line.put(masked(value).as_str(), ink(c.on_background))
    } else {
        line.put(value, ink(c.on_background))
    }
}

/// The line of a plugin with a configurator.
pub open spec fn entry_line(name: Seq<char>, desc: Seq<char>, selected: bool, c: Palette) -> Seq<
    SpanView,
> {
    let style = if selected {
        filled(c.on_primary, c.primary)
    } else {
        ink(c.on_background)
    };
    blank().push(pointer(selected, c)).push(span(cell(name, 14), style)).push(
        span(
            desc,
            if selected {
                filled(c.on_primary, c.primary)
            } else {
                ink(c.outline_variant)
            },
        ),
    )
}

/// The row that deletes all data.
pub open spec fn purge_line(selected: bool, c: Palette) -> Seq<SpanView> {
    blank().push(
        span(
            " "@ + cursor_mark(selected),
            if selected {
                bold(c.error)
            } else {
                ink(c.outline_variant)
            },
        ),
    ).push(
        span(
            "Purge database"@,
            if selected {
                bold(c.error)
            } else {
                ink(c.on_background)
            },
        ),
    ).push(
        span("  wipe ALL data — goals, themes, settings, plugins"@, ink(c.outline_variant)),
    )
}

/// The lines of the fields of the host.
pub open spec fn host_lines(app: App, fields: Seq<UiField>) -> Seq<Seq<SpanView>> {
    Seq::new(
        fields.len(),
        |i: int|
            host_line(
                fields[i],
                value_or_empty(app.global_values@, fields[i].key@),
                i == app.config_selected,
                opt(app.config_editing),
                app.theme.colors,
            ),
    )
}

/// The lines of the plugins with a configurator, behind `n` fields.
pub open spec fn entry_lines(app: App, entries: Seq<(String, String)>, n: int) -> Seq<
    Seq<SpanView>,
> {
    Seq::new(
        entries.len(),
        |i: int|
            entry_line(entries[i].0@, entries[i].1@, n + i == app.config_selected, app.theme.colors),
    )
}

/// The settings page of the host: the sync, the plugins with a configurator, and
/// the row that deletes all data.
pub open spec fn global_lines(app: App) -> Seq<Seq<SpanView>> {
    let c = app.theme.colors;
    match app.global_spec {
        Some(form) => {
            let n = form.fields@.len() as int;
            let entries = app.global_plugin_entries@;
            let sync = no_lines().push(one("  Sync"@, bold(c.secondary))) + host_lines(
                app,
                form.fields@,
            );
            let plugins = if entries.len() == 0 {
                no_lines()
            } else {
                no_lines().push(blank()).push(one("  Plugins"@, bold(c.secondary))) + entry_lines(
                    app,
                    entries,
                    n,
                )
            };
            (sync + plugins).push(blank()).push(one("  Danger zone"@, bold(c.error))).push(
                purge_line(app.config_selected == n + entries.len(), c),
            )
        },
        None => no_lines(),
    }
}

fn render_purge_row(selected: bool, c: &Palette) -> (r: Line)
    ensures
        r@ == purge_line(selected, *c),
{
    let (mark, mark_style, text_style) = if selected {
        ("▶ ", bold(c.error), bold(c.error))
    } else {
        ("  ", ink(c.outline_variant), ink(c.on_background))
    };
    Line::new().put(concat(" ", mark).as_str(), mark_style).put("Purge database", text_style).put(
        "  wipe ALL data — goals, themes, settings, plugins",
        ink(c.outline_variant),
    )
}

fn put_host_fields(page: Page, app: &App, fields: &Vec<UiField>) -> (r: Page)
    ensures
        r@ == page@ + host_lines(*app, fields@),
{
    let ghost start = page@;
    let mut page = page;
    for i in 0..fields.len()
        invariant
            page@ =~= start + host_lines(*app, fields@.take(i as int)),
    {
        let f = &fields[i];
        let value = app.global_values.get_or_empty(f.key.as_str());
        page = page.line(
            render_host_field(
                f,
                value.as_str(),
                i == app.config_selected,
                &app.config_editing,
                &app.theme.colors,
            ),
        );
    }
    assert(fields@.take(fields@.len() as int) =~= fields@);
    page
}

fn put_entries(page: Page, app: &App, n: usize) -> (r: Page)
    ensures
        r@ == page@ + entry_lines(*app, app.global_plugin_entries@, n as int),
{
    let c = &app.theme.colors;
    let ghost start = page@;
    let entries = &app.global_plugin_entries;
    let mut page = page;
    for i in 0..entries.len()
        invariant
            c == &app.theme.colors,
            *entries == app.global_plugin_entries,
            page@ =~= start + entry_lines(*app, entries@.take(i as int), n as int),
    {
        let selected = app.config_selected >= n && app.config_selected - n == i;
        let (name_style, desc_style) = if selected {
            (filled(c.on_primary, c.primary), filled(c.on_primary, c.primary))
        } else {
            (ink(c.on_background), ink(c.outline_variant))
        };
        let line = point(selected, c).put(
            cell_text(entries[i].0.as_str(), 14).as_str(),
            name_style,
        ).put(entries[i].1.as_str(), desc_style);
        page = page.line(line);
    }
    assert(entries@.take(entries@.len() as int) =~= entries@);
    page
}

/// The settings page of the host.
pub fn render_global_config(app: &App) -> (r: Popup)
    ensures
        r.title@ == " Global Settings "@,
        r.percent_x == 64,
        r.percent_y == 60,
        r.border == app.theme.colors.primary,
        r.page@ == global_lines(*app),
{
    let c = &app.theme.colors;
    let title = " Global Settings ".to_string();
    let form = match &app.global_spec {
        Some(form) => form,
        None => {
            return Popup { title, percent_x: 64, percent_y: 60, border: c.primary, page: Page::new() };
        },
    };
    let n: usize = form.fields.len();
    let m: usize = app.global_plugin_entries.len();
    let page = Page::new().one("  Sync", bold(c.secondary));
    let page = put_host_fields(page, app, &form.fields);
    let ghost sync = page@;
    let page = if m == 0 {
        assert(page@ =~= sync + no_lines());
        page
    } else {
        let page = page.blank().one("  Plugins", bold(c.secondary));
        let page = put_entries(page, app, n);
        assert(page@ =~= sync + (no_lines().push(blank()).push(one("  Plugins"@, bold(c.secondary)))
            + entry_lines(*app, app.global_plugin_entries@, n as int)));
        page
    };
    let selected = app.config_selected >= n && app.config_selected - n == m;
    let page = page.blank().one("  Danger zone", bold(c.error)).line(render_purge_row(selected, c));
    Popup { title, percent_x: 64, percent_y: 60, border: c.primary, page }
}

// ---------- pickers ----------

/// The line of a choice of the agent picker.
pub open spec fn choice_line(ch: AgentChoice, selected: bool, c: Palette) -> Seq<SpanView> {
    let model = match ch.model {
        Some(m) => m@,
        None => "—"@,
    };
    blank().push(pointer(selected, c)).push(
        span(cell(model, 24), bold_if(c.on_background, selected)),
    ).push(span(ch.plugin@, ink(c.outline_variant)))
}

/// The lines of the choices of the agent picker.
pub open spec fn choice_lines(s: Seq<AgentChoice>, selected: int, c: Palette) -> Seq<Seq<SpanView>> {
    Seq::new(s.len(), |i: int| choice_line(s[i], i == selected, c))
}

/// The agent picker.
pub open spec fn agent_picker_lines(app: App) -> Seq<Seq<SpanView>> {
    let c = app.theme.colors;
    let head = no_lines().push(one("  Active provider models"@, ink(c.outline_variant))).push(
        blank(),
    );
    (if app.agent_choices@.len() == 0 {
        head.push(one("  No active provider plugins."@, ink(c.error)))
    } else {
        head
    }) + choice_lines(app.agent_choices@, app.agent_selected as int, c)
}

/// The agent picker.
pub fn render_agent_picker(app: &App) -> (r: Popup)
    ensures
        r.title@ == " Run with agent "@,
        r.percent_x == 56,
        r.percent_y == 60,
        r.border == app.theme.colors.primary,
        r.page@ == agent_picker_lines(*app),
{
    let c = &app.theme.colors;
    let mut page = Page::new().one("  Active provider models", ink(c.outline_variant)).blank();
    if app.agent_choices.len() == 0 {
        page = page.one("  No active provider plugins.", ink(c.error));
    }
    let ghost start = page@;
    for i in 0..app.agent_choices.len()
        invariant
            c == &app.theme.colors,
            page@ =~= start + choice_lines(
                app.agent_choices@.take(i as int),
                app.agent_selected as int,
                *c,
            ),
    {
        let ch = &app.agent_choices[i];
        let selected = i == app.agent_selected;
        let model = match &ch.model {
            Some(m) => m.as_str(),
            None => "—",
        };
        let line = point(selected, c).put(
            cell_text(model, 24).as_str(),
            bold_if(c.on_background, selected),
        ).put(ch.plugin.as_str(), ink(c.outline_variant));
        page = page.line(line);
    }
    assert(app.agent_choices@.take(app.agent_choices@.len() as int) =~= app.agent_choices@);
    Popup { title: " Run with agent ".to_string(), percent_x: 56, percent_y: 60, border: c.primary, page }
}

/// The lines of the choices of the move picker.
pub open spec fn target_lines(s: Seq<(Option<String>, String)>, selected: int, c: Palette) -> Seq<
    Seq<SpanView>,
> {
    Seq::new(
        s.len(),
        |i: int|
            blank().push(pointer(i == selected, c)).push(
                span(truncated(s[i].1@, 50), bold_if(c.on_background, i == selected)),
            ),
    )
}

/// The lines of the move picker.
pub open spec fn move_lines(app: App) -> Seq<Seq<SpanView>> {
    no_lines().push(
        one("  Choose new parent (∅ = root)"@, ink(app.theme.colors.outline_variant)),
    ).push(blank()) + target_lines(app.move_choices@, app.move_selected as int, app.theme.colors)
}

/// The move picker.
pub fn render_move_picker(app: &App) -> (r: Popup)
    ensures
        r.title@ == " Move to… "@,
        r.percent_x == 60,
        r.percent_y == 60,
        r.border == app.theme.colors.primary,
        r.page@ == move_lines(*app),
{
    let c = &app.theme.colors;
    let mut page = Page::new().one("  Choose new parent (∅ = root)", ink(c.outline_variant)).blank();
    let ghost start = page@;
    for i in 0..app.move_choices.len()
        invariant
            c == &app.theme.colors,
            page@ =~= start + target_lines(
                app.move_choices@.take(i as int),
                app.move_selected as int,
                *c,
            ),
    {
        let selected = i == app.move_selected;
        let line = point(selected, c).put(
            truncate_str(app.move_choices[i].1.as_str(), 50).as_str(),
            bold_if(c.on_background, selected),
        );
        page = page.line(line);
    }
    assert(app.move_choices@.take(app.move_choices@.len() as int) =~= app.move_choices@);
    Popup { title: " Move to… ".to_string(), percent_x: 60, percent_y: 60, border: c.primary, page }
}

/// The line of an entry of the sheet picker.
pub open spec fn sheet_line(label: Seq<char>, is_buffer: bool, selected: bool, c: Palette) -> Seq<
    SpanView,
> {
    blank().push(pointer(selected, c)).push(
        span(
            truncated(label, 40),
            if selected {
                bold(c.on_background)
            } else if is_buffer {
                ink(c.tertiary)
            } else {
                ink(c.on_background)
            },
        ),
    )
}

fn render_sheet_line(label: &str, is_buffer: bool, selected: bool, c: &Palette) -> (r: Line)
    ensures
        r@ == sheet_line(label@, is_buffer, selected, *c),
{
    let style = if selected {
        bold(c.on_background)
    } else if is_buffer {
        ink(c.tertiary)
    } else {
        ink(c.on_background)
    };
    point(selected, c).put(truncate_str(label, 40).as_str(), style)
}

/// The lines of the sheets in the sheet picker.
pub open spec fn picker_sheets(s: Seq<GoalSheet>, selected: int, c: Palette) -> Seq<Seq<SpanView>> {
    Seq::new(s.len(), |i: int| sheet_line("▭  "@ + s[i].name@, false, i + 1 == selected, c))
}

/// The lines of the buffers in the sheet picker, behind `n` rows.
pub open spec fn picker_buffers(ids: Seq<Seq<char>>, n: int, selected: int, c: Palette) -> Seq<
    Seq<SpanView>,
> {
    Seq::new(
        ids.len(),
        |i: int|
            sheet_line(
                "◈  "@ + buffer_label(ids[i]) + " (plugin)"@,
                true,
                n + i == selected,
                c,
            ),
    )
}

/// The sheet picker: all goals, the sheets, and the buffers in order.
pub open spec fn sheet_picker_lines(app: App, ids: Seq<Seq<char>>) -> Seq<Seq<SpanView>> {
    let c = app.theme.colors;
    let sel = app.sheet_picker_selected as int;
    (no_lines().push(
        one(
            "  All = show all goals · sheets isolate goals · buffers are plugin UIs"@,
            ink(c.outline_variant),
        ),
    ).push(blank()).push(sheet_line("∅  All"@, false, sel == 0, c)) + picker_sheets(
        app.sheets@,
        sel,
        c,
    ) + picker_buffers(ids, app.sheets@.len() as int + 1, sel, c)).push(blank()).push(
        one(
            "  n new sheet · d delete sheet · Enter select · Esc close"@,
            ink(c.outline_variant),
        ),
    )
}

/// The sheet picker.
pub fn render_sheet_picker(app: &App) -> (r: Popup)
    ensures
        r.title@ == " Sheets — buffers "@,
        r.percent_x == 60,
        r.percent_y == 60,
        r.border == app.theme.colors.primary,
        exists|ids: Seq<Seq<char>>| #[trigger]
            sorted_ids(ids, app.buffer_manager.buffers@.dom()) && r.page@ == sheet_picker_lines(
                *app,
                ids,
            ),
{
    let c = &app.theme.colors;
    let sel: usize = app.sheet_picker_selected;
    let mut page = Page::new().one(
        "  All = show all goals · sheets isolate goals · buffers are plugin UIs",
        ink(c.outline_variant),
    ).blank().line(render_sheet_line("∅  All", false, sel == 0, c));
    let ghost start = page@;
    for i in 0..app.sheets.len()
        invariant
            page@ =~= start + picker_sheets(app.sheets@.take(i as int), sel as int, *c),
    {
        let label = concat("▭  ", app.sheets[i].name.as_str());
        let selected = sel > 0 && sel - 1 == i;
        page = page.line(render_sheet_line(label.as_str(), false, selected, c));
    }
    assert(app.sheets@.take(app.sheets@.len() as int) =~= app.sheets@);
    let ghost middle = page@;
    let ids = app.buffer_manager.list_buffers();
    let ghost names = texts(ids@);
    let n: usize = app.sheets.len();
    for i in 0..ids.len()
        invariant
            names == texts(ids@),
            page@ =~= middle + picker_buffers(names.take(i as int), n + 1, sel as int, *c),
    {
        assert(names[i as int] == ids@[i as int]@);
        let label = concat3("◈  ", label_of_buffer(ids[i].as_str()).as_str(), " (plugin)");
        let selected = sel > n && sel - n - 1 == i;
        page = page.line(render_sheet_line(label.as_str(), true, selected, c));
    }
    assert(names.take(names.len() as int) =~= names);
    let page = page.blank().one(
        "  n new sheet · d delete sheet · Enter select · Esc close",
        ink(c.outline_variant),
    );
    assert(sorted_ids(names, app.buffer_manager.buffers@.dom()));
    Popup { title: " Sheets — buffers ".to_string(), percent_x: 60, percent_y: 60, border: c.primary, page }
}

/// The lines of the input of a new sheet.
pub open spec fn add_sheet_lines(app: App) -> Seq<Seq<SpanView>> {
    let c = app.theme.colors;
    no_lines().push(blank()).push(
        blank().push(span("> "@, ink(c.primary))).push(
            span(app.input.text@, ink(c.on_background)),
        ).push(span("│"@, ink(c.primary))),
    )
}

/// The input of a new sheet.
pub fn render_add_sheet(app: &App) -> (r: Popup)
    ensures
        r.title@ == " New sheet "@,
        r.percent_x == 50,
        r.percent_y == 22,
        r.border == app.theme.colors.primary,
        r.page@ == add_sheet_lines(*app),
{
    let c = &app.theme.colors;
    let line = Line::new().put("> ", ink(c.primary)).put(
        app.input.text.as_str(),
        ink(c.on_background),
    ).put("│", ink(c.primary));
    Popup {
        title: " New sheet ".to_string(),
        percent_x: 50,
        percent_y: 22,
        border: c.primary,
        page: Page::new().blank().line(line),
    }
}

// ---------- agent runs ----------

/// The title of the view of a running agent.
pub open spec fn running_title(app: App, goal_id: Seq<char>) -> Seq<char> {
    " Agent — "@ + (match find_goal(app.goals@, goal_id) {
        Some(g) => truncated(g.title@, 30),
        None => "?"@,
    }) + " "@
}

/// The lines of the view of a running agent, at a time in milliseconds.
pub open spec fn running_lines(app: App, millis: u64) -> Seq<Seq<SpanView>> {
    no_lines().push(
        one(
            " "@ + spinner_frame((millis / 200) as int % 6)
                + " streaming…  (Esc hides; the run continues)"@,
            bold(app.theme.colors.primary),
        ),
    ).push(blank()) + log_lines(last_of(texts(app.agent_log@), 12), app.theme.colors)
}

/// The view of a running agent, at a time in milliseconds.
pub fn render_agent_running(app: &App, goal_id: &str, millis: u64) -> (r: Popup)
    ensures
        r.title@ == running_title(*app, goal_id@),
        r.percent_x == 64,
        r.percent_y == 55,
        r.border == app.theme.colors.primary,
        r.page@ == running_lines(*app, millis),
{
    let c = &app.theme.colors;
    let title = match goal_with(&app.goals, goal_id) {
        Some(g) => truncate_str(g.title.as_str(), 30),
        None => "?".to_string(),
    };
    let head = concat3(" ", spinner(millis), " streaming…  (Esc hides; the run continues)");
    let page = Page::new().one(head.as_str(), bold(c.primary)).blank();
    Popup {
        title: concat3(" Agent — ", title.as_str(), " "),
        percent_x: 64,
        percent_y: 55,
        border: c.primary,
        page: put_log(page, &app.agent_log, 12, c),
    }
}

/// The lines of the full result of a goal: its state, and the result, or the
/// progress where there is none yet.
pub open spec fn result_lines(g: Goal, c: Palette) -> Seq<Seq<SpanView>> {
    let head = match g.agent_status {
        Some(s) => no_lines().push(one("Status: "@ + agent_word(s), bold(c.tertiary))).push(blank()),
        None => no_lines(),
    };
    head + (match g.agent_result {
        Some(r) => match text_member(r@, "content"@) {
            Some(t) => text_lines(split(t, '\n'), ink(c.on_surface)),
            None => if value_of(r@) is Some {
                text_lines(split(r@, '\n'), ink(c.on_surface))
            } else {
                no_lines()
            },
        },
        None => match g.agent_progress {
            Some(p) => no_lines().push(one("Progress:"@, bold(c.primary))) + text_lines(
                split(p@, '\n'),
                ink(c.on_surface_variant),
            ),
            None => no_lines().push(one("(no result yet)"@, ink(c.outline_variant))),
        },
    })
}

fn lines_of_text(text: &str, style: Style) -> (r: Page)
    ensures
        r@ == text_lines(split(text@, '\n'), style),
{
    let chars = to_chars(text);
    let parts = split_chars(&chars, '\n');
    let ghost all = views(parts@);
    let mut page = Page::new();
    for i in 0..parts.len()
        invariant
            all == views(parts@),
            page@ =~= text_lines(all.take(i as int), style),
    {
        assert(all[i as int] == parts@[i as int]@);
        page = page.one(from_chars(&parts[i]).as_str(), style);
    }
    assert(all.take(all.len() as int) =~= all);
    page
}

fn result_page(g: &Goal, c: &Palette) -> (r: Page)
    ensures
        r@ == result_lines(*g, *c),
{
    let mut page = Page::new();
    if let Some(s) = g.agent_status {
        page = page.one(concat("Status: ", agent_name(s)).as_str(), bold(c.tertiary)).blank();
    }
    let ghost head = page@;
    match &g.agent_result {
        Some(res) => {
            let content = match crate::json::parse_object(res.as_str()) {
                Some(m) => crate::json::member_string(&m, "content"),
                None => None,
            };
            match content {
                Some(t) => page.append(lines_of_text(t.as_str(), ink(c.on_surface))),
                None => {
                    if parse_under("result", res.as_str()).is_some() {
                        page.append(lines_of_text(res.as_str(), ink(c.on_surface)))
                    } else {
                        assert(page@ =~= head + no_lines());
                        page
                    }
                },
            }
        },
        None => match &g.agent_progress {
            Some(p) => {
                let rest = Page::new().one("Progress:", bold(c.primary)).append(
                    lines_of_text(p.as_str(), ink(c.on_surface_variant)),
                );
                page.append(rest)
            },
            None => page.append(Page::new().one("(no result yet)", ink(c.outline_variant))),
        },
    }
}

/// The first line that is shown: the last page at most.
pub open spec fn first_shown(scroll: int, total: int, height: int) -> int {
    let max = if total > height {
        total - height
    } else {
        0
    };
    if scroll <= max {
        scroll
    } else {
        max
    }
}

/// The number of lines that are shown.
pub open spec fn shown_lines(first: int, total: int, height: int) -> int {
    if total - first <= height {
        total - first
    } else {
        height
    }
}

/// The window of the full result never runs past its end.
pub proof fn law_window_fits(scroll: int, total: int, height: int)
    requires
        0 <= scroll,
        0 <= total,
        0 <= height,
    ensures
        ({
            let first = first_shown(scroll, total, height);
            0 <= first && first + shown_lines(first, total, height) <= total
        }),
{
}

/// Whether a full result is shown: some lines from a scroll position on, and the line
/// below them; an error where there is no such goal.
pub open spec fn result_shown(
    r: Result<(Popup, Line), Popup>,
    app: App,
    goal_id: Seq<char>,
    scroll: int,
    height: int,
) -> bool {
    match find_goal(app.goals@, goal_id) {
        Some(g) => {
            let all = result_lines(g, app.theme.colors);
            let first = first_shown(scroll, all.len() as int, height);
            let n = shown_lines(first, all.len() as int, height);
            r is Ok && ({
                let (popup, footer) = r->Ok_0;
                popup.title@ == " Full result — "@ + truncated(g.title@, 40) + " "@
                    && popup.percent_x == 85 && popup.percent_y == 85 && popup.border
                    == app.theme.colors.primary && popup.page@ == all.subrange(first, first + n)
                    && footer@ == one(
                    " "@ + decimal((first + n) as nat) + "/"@ + decimal(all.len())
                        + " lines — j/k scroll, Esc/q close "@,
                    ink(app.theme.colors.outline_variant),
                )
            })
        },
        None => r is Err && r->Err_0.title@ == " Full result — "@ + truncated(goal_id, 40) + " "@
            && r->Err_0.percent_x == 85 && r->Err_0.percent_y == 85 && r->Err_0.border
            == app.theme.colors.primary && r->Err_0.page@ == no_lines().push(one("Goal not found"@, ink(app.theme.colors.error))),
    }
}

/// The full result of a goal, `height` lines from a scroll position on, and the
/// line below it; an error where there is no such goal.
pub fn render_full_result(app: &App, goal_id: &str, scroll: usize, height: usize) -> (r: Result<
    (Popup, Line),
    Popup,
>)
    ensures
        result_shown(r, *app, goal_id@, scroll as int, height as int),
{
    let c = &app.theme.colors;
    let g = match goal_with(&app.goals, goal_id) {
        Some(g) => g,
        None => {
            let title = concat3(" Full result — ", truncate_str(goal_id, 40).as_str(), " ");
            let page = Page::new().one("Goal not found", ink(c.error));
            return Err(Popup { title, percent_x: 85, percent_y: 85, border: c.primary, page });
        },
    };
    let title = concat3(" Full result — ", truncate_str(g.title.as_str(), 40).as_str(), " ");
    let page = result_page(g, c);
    let ghost all = page@;
    let mut lines = page.lines;
    let total: usize = lines.len();
    assert(all.len() == total);
    let max: usize = if total > height {
        total - height
    } else {
        0
    };
    let first: usize = if scroll <= max {
        scroll
    } else {
        max
    };
    let n: usize = if total - first <= height {
        total - first
    } else {
        height
    };
    let mut rest = lines.split_off(first);
    rest.truncate(n);
    let shown = Page { lines: rest };
    assert(shown@ =~= all.subrange(first as int, first + n));
    let a = concat4(" ", number((first + n) as u64).as_str(), "/", number(total as u64).as_str());
    let text = concat(a.as_str(), " lines — j/k scroll, Esc/q close ");
    let footer = Line::new().put(text.as_str(), ink(c.outline_variant));
    assert(footer@ =~= one(text@, ink(c.outline_variant)));
    Ok((Popup { title, percent_x: 85, percent_y: 85, border: c.primary, page: shown }, footer))
}

} // verus!
