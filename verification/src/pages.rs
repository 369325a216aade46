//! What the pages over the goal list show: help, the plugin manager, the forms,
//! the pickers, the questions and the agent run.

use crate::app::App;
use crate::config::{entry_views, BindingEntry, EntryView};
use crate::db::PluginRow;
use crate::manager::theme_note;
use crate::plugins::{plural_of, summary_of, RepoInfo, TaskState};
use crate::popups::{cell, cell_text, cursor_mark, mark, spinner, spinner_frame, Popup};
use crate::text::{
    concat, from_chars, number, pad_left, pad_right, padded_left, padded_right, split, split_chars,
    texts, to_chars, truncated, views,
};
use crate::theme::Palette;
use crate::types::{HelpTab, PluginPane};
use crate::ui::truncate_str;
use crate::view::{
    blank, bold, bold_if, concat3, concat4, heavy, ink, no_lines, one, plain, raw, span, Line, Page,
    SpanView, Style,
};
use vstd::prelude::*;

verus! {

/// The cursor in front of a row.
pub open spec fn pointer(selected: bool, c: Palette) -> SpanView {
    span(" "@ + cursor_mark(selected), ink(c.primary))
}

/// A line that begins with the cursor.
pub fn point(selected: bool, c: &Palette) -> (r: Line)
    ensures
        r@ == blank().push(pointer(selected, *c)),
{
    Line::new().put(concat(" ", mark(selected)).as_str(), ink(c.primary))
}

// ---------- help ----------

/// The tab bar of the help page.
pub open spec fn help_bar(tabs: Seq<HelpTab>, selected: int, c: Palette) -> Seq<SpanView>
    decreases tabs.len(),
{
    if tabs.len() == 0 {
        blank().push(raw("  "@))
    } else {
        let title = tabs.last().title@;
        help_bar(tabs.drop_last(), selected, c).push(
            if tabs.len() - 1 == selected {
                span("[ "@ + title + " ]"@, bold(c.primary))
            } else {
                span("  "@ + title + "  "@, ink(c.outline_variant))
            },
        ).push(raw(" "@))
    }
}

fn render_help_bar(tabs: &Vec<HelpTab>, selected: usize, c: &Palette) -> (r: Line)
    ensures
        r@ == help_bar(tabs@, selected as int, *c),
{
    let mut line = Line::new().raw("  ");
    assert(tabs@.take(0) =~= Seq::empty());
    for i in 0..tabs.len()
        invariant
            line@ == help_bar(tabs@.take(i as int), selected as int, *c),
    {
        assert(tabs@.take(i + 1).drop_last() =~= tabs@.take(i as int));
        let title = tabs[i].title.as_str();
        if i == selected {
            line = line.put(concat3("[ ", title, " ]").as_str(), bold(c.primary));
        } else {
            line = line.put(concat3("  ", title, "  ").as_str(), ink(c.outline_variant));
        }
        line = line.raw(" ");
    }
    assert(tabs@.take(tabs@.len() as int) =~= tabs@);
    line
}

/// A line without the carriage return at its end.
pub open spec fn without_return(s: Seq<char>) -> Seq<char> {
    if s.len() > 0 && s.last() == '\r' {
        s.drop_last()
    } else {
        s
    }
}

/// The lines of a text; the last one counts only if it is not empty.
pub open spec fn rows_of_text(s: Seq<char>) -> Seq<Seq<char>> {
    let parts = split(s, '\n');
    let ended = Seq::new((parts.len() - 1) as nat, |i: int| without_return(parts[i]));
    if parts.last().len() == 0 {
        ended
    } else {
        ended.push(parts.last())
    }
}

proof fn lemma_split_not_empty(s: Seq<char>)
    ensures
        split(s, '\n').len() > 0,
    decreases s.len(),
{
}

/// The lines of a text.
pub fn text_rows(text: &str) -> (r: Vec<String>)
    ensures
        texts(r@) == rows_of_text(text@),
{
    let chars = to_chars(text);
    let parts = split_chars(&chars, '\n');
    let ghost all = views(parts@);
    let mut out: Vec<String> = Vec::new();
    proof {
        lemma_split_not_empty(text@);
        assert(all.len() == parts@.len());
    }
    let n: usize = parts.len();
    for i in 0..(n - 1)
        invariant
            n == parts@.len(),
            n > 0,
            all == views(parts@),
            texts(out@) =~= Seq::new(i as nat, |k: int| without_return(all[k])),
    {
        let ghost before = texts(out@);
        let p = &parts[i];
        assert(all[i as int] == p@);
        let k: usize = if p.len() > 0 && p[p.len() - 1] == '\r' {
            p.len() - 1
        } else {
            p.len()
        };
        let kept = crate::text::take(p, k);
        assert(kept@ =~= without_return(p@));
        let row = from_chars(&kept);
        let ghost v = row@;
        out.push(row);
        assert(texts(out@) =~= before.push(v));
    }
    let ghost ended = texts(out@);
    assert(all.last() == parts@[n - 1]@);
    if parts[n - 1].len() > 0 {
        let row = from_chars(&parts[n - 1]);
        let ghost v = row@;
        out.push(row);
        assert(texts(out@) =~= ended.push(v));
    }
    out
}

/// Whether a line is a rule of hyphens.
pub open spec fn is_rule_line(s: Seq<char>) -> bool {
    s.len() > 0 && forall|i: int| 0 <= i < s.len() ==> #[trigger] s[i] == '-'
}

fn rule_line(s: &str) -> (r: bool)
    ensures
        r == is_rule_line(s@),
{
    let v = to_chars(s);
    if v.len() == 0 {
        return false;
    }
    let mut i: usize = 0;
    while i < v.len()
        invariant
            v@ == s@,
            i <= v@.len(),
            forall|k: int| 0 <= k < i ==> #[trigger] v@[k] == '-',
        decreases v@.len() - i,
    {
        if v[i] != '-' {
            assert(s@[i as int] != '-');
            return false;
        }
        i = i + 1;
    }
    true
}

/// The lines of the help of a plugin up to row `n`: a row above a rule is a
/// heading, and the rule itself is left out.
pub open spec fn help_rows(rows: Seq<Seq<char>>, n: int, c: Palette) -> Seq<Seq<SpanView>>
    decreases n,
{
    if n <= 0 || n > rows.len() {
        no_lines()
    } else {
        let before = help_rows(rows, n - 1, c);
        let row = rows[n - 1];
        if row.len() > 0 && n < rows.len() && is_rule_line(rows[n]) {
            before.push(one("  "@ + row, bold(c.primary)))
        } else if is_rule_line(row) {
            before
        } else if row.len() == 0 {
            before.push(blank())
        } else {
            before.push(one("  "@ + row, ink(c.on_background)))
        }
    }
}

fn put_help_rows(page: Page, text: &str, c: &Palette) -> (r: Page)
    ensures
        r@ == page@ + help_rows(rows_of_text(text@), rows_of_text(text@).len() as int, *c),
{
    let rows = text_rows(text);
    let ghost all = texts(rows@);
    let ghost start = page@;
    let mut page = page;
    for i in 0..rows.len()
        invariant
            all == texts(rows@),
            page@ =~= start + help_rows(all, i as int, *c),
    {
        assert(all[i as int] == rows@[i as int]@);
        let row = rows[i].as_str();
        let above_rule = if i + 1 < rows.len() {
            assert(all[i + 1] == rows@[i + 1]@);
            rule_line(rows[i + 1].as_str())
        } else {
            false
        };
        if !row.is_empty() && above_rule {
            page = page.one(concat("  ", row).as_str(), bold(c.primary));
        } else if rule_line(row) {
        } else if row.is_empty() {
            page = page.blank();
        } else {
            page = page.one(concat("  ", row).as_str(), ink(c.on_background));
        }
    }
    page
}

/// The line of a binding.
pub open spec fn binding_line(e: EntryView, c: Palette) -> Seq<SpanView> {
    blank().push(span("    "@ + padded_right(e.binding.label_spec(), 14), heavy())).push(
        span(padded_right(e.desc, 46), ink(c.on_background)),
    ).push(
        if e.is_default {
            span(e.name + " (default)"@, ink(c.outline_variant))
        } else {
            span(e.name + " (custom)"@, ink(c.success))
        },
    )
}

/// The tab of the key bindings: the configured ones and the fixed keys.
pub open spec fn keybinds_lines(entries: Seq<EntryView>, c: Palette) -> Seq<Seq<SpanView>> {
    no_lines().push(one("  Configured keybinds"@, bold(c.primary))).push(
        one(
            "  (values marked ·default· come from the built-ins, others were set in config.toml)"@,
            ink(c.outline_variant),
        ),
    ).push(blank()) + entries.map_values(|e: EntryView| binding_line(e, c)) + no_lines().push(
        blank(),
    ).push(one("  Fixed keys"@, bold(c.primary))).push(
        plain("    j / k, arrows   move selection"@),
    ).push(plain("    <leader>q       quit"@)).push(
        plain("    C-d / C-c       quit (always active)"@),
    ).push(plain("    Esc             cancel leader / clear message"@))
}

fn render_binding(e: &BindingEntry, c: &Palette) -> (r: Line)
    ensures
        r@ == binding_line(e@, *c),
{
    let label = pad_right(e.binding.label().as_str(), 14);
    let line = Line::new().put(concat("    ", label.as_str()).as_str(), heavy()).put(
        pad_right(e.desc, 46).as_str(),
        ink(c.on_background),
    );
    if e.is_default {
        line.put(concat(e.name, " (default)").as_str(), ink(c.outline_variant))
    } else {
        line.put(concat(e.name, " (custom)").as_str(), ink(c.success))
    }
}

/// The tab of the key bindings.
pub fn render_help_keybinds_tab(app: &App) -> (r: Page)
    ensures
        r@ == keybinds_lines(app.keybinds.listed(), app.theme.colors),
{
    let c = &app.theme.colors;
    let entries = app.keybinds.entries();
    let ghost all = entry_views(entries@);
    let mut page = Page::new().one("  Configured keybinds", bold(c.primary)).one(
        "  (values marked ·default· come from the built-ins, others were set in config.toml)",
        ink(c.outline_variant),
    ).blank();
    let ghost start = page@;
    let ghost f = |e: EntryView| binding_line(e, *c);
    for i in 0..entries.len()
        invariant
            all == entry_views(entries@),
            f == (|e: EntryView| binding_line(e, *c)),
            page@ =~= start + all.take(i as int).map_values(f),
    {
        assert(all[i as int] == entries@[i as int]@);
        page = page.line(render_binding(&entries[i], c));
    }
    assert(all.take(all.len() as int) =~= all);
    let ghost middle = page@;
    let page = page.blank().one("  Fixed keys", bold(c.primary)).plain(
        "    j / k, arrows   move selection",
    ).plain("    <leader>q       quit").plain("    C-d / C-c       quit (always active)").plain(
        "    Esc             cancel leader / clear message",
    );
    assert(page@ =~= keybinds_lines(app.keybinds.listed(), *c));
    page
}

/// The content of the selected tab of the help page.
pub open spec fn help_content(app: App) -> Seq<Seq<SpanView>> {
    let c = app.theme.colors;
    let i = app.help_selected as int;
    if i < app.help_tabs@.len() && app.help_tabs@[i].plugin is Some {
        let rows = rows_of_text(app.help_tabs@[i].text@);
        help_rows(rows, rows.len() as int, c)
    } else {
        keybinds_lines(app.keybinds.listed(), c)
    }
}

/// The lines of the help page.
pub open spec fn help_lines(app: App) -> Seq<Seq<SpanView>> {
    let c = app.theme.colors;
    (no_lines().push(blank()).push(
        help_bar(app.help_tabs@, app.help_selected as int, c),
    ).push(blank()) + help_content(app)).push(blank()).push(
        one(
            "  To rebind: edit [keybinds] in ~/.config/cordanui/config.toml"@,
            ink(c.outline_variant),
        ),
    )
}

/// The help page.
pub fn render_help_overlay(app: &App) -> (r: Popup)
    ensures
        r.title@ == (if app.help_tabs@.len() > 1 {
            " Help ←/→ switch tab — [keybinds] from ~/.config/cordanui/config.toml "@
        } else {
            " Help — [keybinds] from ~/.config/cordanui/config.toml "@
        }),
        r.percent_x == 70,
        r.percent_y == 70,
        r.border == app.theme.colors.primary,
        r.page@ == help_lines(*app),
{
    let c = &app.theme.colors;
    let title = if app.help_tabs.len() > 1 {
        " Help ←/→ switch tab — [keybinds] from ~/.config/cordanui/config.toml "
    } else {
        " Help — [keybinds] from ~/.config/cordanui/config.toml "
    };
    let page = Page::new().blank().line(
        render_help_bar(&app.help_tabs, app.help_selected, c),
    ).blank();
    let on_plugin = app.help_selected < app.help_tabs.len()
        && app.help_tabs[app.help_selected].plugin.is_some();
    let page = if on_plugin {
        put_help_rows(page, app.help_tabs[app.help_selected].text.as_str(), c)
    } else {
        page.append(render_help_keybinds_tab(app))
    };
    let page = page.blank().one(
        "  To rebind: edit [keybinds] in ~/.config/cordanui/config.toml",
        ink(c.outline_variant),
    );
    Popup { title: title.to_owned(), percent_x: 70, percent_y: 70, border: c.primary, page }
}

// ---------- questions ----------

/// The last line of a question.
pub open spec fn question_keys(verb: Seq<char>, c: Palette) -> Seq<SpanView> {
    blank().push(span("  y"@, bold(c.error))).push(raw(" to "@ + verb + " · "@)).push(
        span("n"@, ink(c.outline_variant)),
    ).push(raw(" to cancel"@))
}

fn question_line(verb: &str, c: &Palette) -> (r: Line)
    ensures
        r@ == question_keys(verb@, *c),
{
    Line::new().put("  y", bold(c.error)).raw(concat3(" to ", verb, " · ").as_str()).put(
        "n",
        ink(c.outline_variant),
    ).raw(" to cancel")
}

/// The lines of a question about something with an id.
pub open spec fn question_lines(question: Seq<char>, id: Seq<char>, c: Palette) -> Seq<
    Seq<SpanView>,
> {
    no_lines().push(blank()).push(plain(question)).push(blank()).push(
        one("  id: "@ + id, ink(c.outline_variant)),
    ).push(blank()).push(question_keys("confirm"@, c))
}

fn question(title: &str, text: &str, id: &str, c: &Palette) -> (r: Popup)
    ensures
        r.title@ == title@,
        r.percent_x == 50,
        r.percent_y == 25,
        r.border == c.error,
        r.page@ == question_lines(text@, id@, *c),
{
    let page = Page::new().blank().plain(text).blank().one(
        concat("  id: ", id).as_str(),
        ink(c.outline_variant),
    ).blank().line(question_line("confirm", c));
    Popup { title: title.to_owned(), percent_x: 50, percent_y: 25, border: c.error, page }
}

/// The question before a goal is deleted.
pub fn render_delete_confirm(goal_id: &str, c: &Palette) -> (r: Popup)
    ensures
        r.title@ == " Confirm Delete "@,
        r.percent_x == 50,
        r.percent_y == 25,
        r.border == c.error,
        r.page@ == question_lines("  Delete this goal and all its subgoals?"@, goal_id@, *c),
{
    question(" Confirm Delete ", "  Delete this goal and all its subgoals?", goal_id, c)
}

/// The question before a sheet is deleted.
pub fn render_confirm_delete_sheet(sheet_id: &str, c: &Palette) -> (r: Popup)
    ensures
        r.title@ == " Confirm Delete Sheet "@,
        r.percent_x == 50,
        r.percent_y == 25,
        r.border == c.error,
        r.page@ == question_lines(
            "  Delete this sheet? Goals become orphaned to All."@,
            sheet_id@,
            *c,
        ),
{
    question(
        " Confirm Delete Sheet ",
        "  Delete this sheet? Goals become orphaned to All.",
        sheet_id,
        c,
    )
}

/// The lines of the question before all data is deleted.
pub open spec fn purge_lines(c: Palette) -> Seq<Seq<SpanView>> {
    no_lines().push(blank()).push(plain("  Delete ALL data and start fresh?"@)).push(blank()).push(
        one("  goals · themes · settings · plugins · error log"@, ink(c.error)),
    ).push(blank()).push(one("  This cannot be undone."@, ink(c.outline_variant))).push(
        blank(),
    ).push(question_keys("purge"@, c))
}

/// The question before all data is deleted.
pub fn render_purge_confirm(c: &Palette) -> (r: Popup)
    ensures
        r.title@ == " Confirm Purge "@,
        r.percent_x == 56,
        r.percent_y == 30,
        r.border == c.error,
        r.page@ == purge_lines(*c),
{
    let page = Page::new().blank().plain("  Delete ALL data and start fresh?").blank().one(
        "  goals · themes · settings · plugins · error log",
        ink(c.error),
    ).blank().one("  This cannot be undone.", ink(c.outline_variant)).blank().line(
        question_line("purge", c),
    );
    Popup { title: " Confirm Purge ".to_string(), percent_x: 56, percent_y: 30, border: c.error, page }
}

// ---------- plugin manager ----------

/// The last `max` of some texts.
pub open spec fn last_of(s: Seq<Seq<char>>, max: int) -> Seq<Seq<char>> {
    if s.len() <= max {
        s
    } else {
        s.skip(s.len() - max)
    }
}

/// A line for each entry of a log.
pub open spec fn log_lines(s: Seq<Seq<char>>, c: Palette) -> Seq<Seq<SpanView>> {
    s.map_values(|t: Seq<char>| one("   "@ + t, ink(c.on_surface_variant)))
}

/// The last entries of a log, a line each.
pub fn put_log(page: Page, log: &Vec<String>, max: usize, c: &Palette) -> (r: Page)
    ensures
        r@ == page@ + log_lines(last_of(texts(log@), max as int), *c),
{
    let ghost all = texts(log@);
    let n: usize = log.len();
    let from: usize = if n <= max {
        0
    } else {
        n - max
    };
    let ghost kept = last_of(all, max as int);
    let ghost start = page@;
    let mut page = page;
    let mut i: usize = from;
    assert(kept =~= all.skip(from as int));
    while i < n
        invariant
            from <= i <= n == log@.len(),
            all == texts(log@),
            kept == all.skip(from as int),
            page@ =~= start + log_lines(kept.take(i - from), *c),
        decreases n - i,
    {
        assert(kept[i - from] == log@[i as int]@);
        page = page.one(concat("   ", log[i].as_str()).as_str(), ink(c.on_surface_variant));
        i = i + 1;
    }
    assert(kept.take(kept.len() as int) =~= kept);
    page
}

/// A line for each found repository.
pub open spec fn repo_lines(s: Seq<RepoInfo>, c: Palette) -> Seq<Seq<SpanView>> {
    s.map_values(|r: RepoInfo| one(" "@ + summary_of(r), ink(c.on_background)))
}

/// The state of the task of the plugin manager, at a time in milliseconds.
pub open spec fn task_lines(state: TaskState, millis: int, c: Palette) -> Seq<Seq<SpanView>> {
    match state {
        TaskState::Idle => no_lines(),
        TaskState::Working(log) => no_lines().push(
            one(" "@ + spinner_frame(millis / 200 % 6) + " working…"@, bold(c.primary)),
        ) + log_lines(last_of(texts(log@), 8), c),
        TaskState::Installed { name, dir, theme_count } => no_lines().push(
            one(" ✓ Installed "@ + name@ + theme_note(theme_count as nat), bold(c.success)),
        ).push(one("   at "@ + dir@, ink(c.outline_variant))),
        TaskState::Results(repos) => repo_lines(repos@, c),
        TaskState::NotFound(q) => no_lines().push(
            one(" No repo found for '"@ + q@ + "'."@, ink(c.error)),
        ),
        TaskState::Error(e) => no_lines().push(one(" Error: "@ + e@, ink(c.error))),
    }
}

fn note_of_themes(n: usize) -> (r: String)
    ensures
        r@ == theme_note(n as nat),
{
    if n == 0 {
        let none = String::new();
        assert(none@ =~= Seq::empty());
        return none;
    }
    let a = concat3(" (+", number(n as u64).as_str(), " theme");
    concat3(a.as_str(), plural_of(n), ")")
}

/// The state of the task of the plugin manager.
pub fn push_task_status(state: &TaskState, millis: u64, c: &Palette) -> (r: Page)
    ensures
        r@ == task_lines(*state, millis as int, *c),
{
    match state {
        TaskState::Idle => Page::new(),
        TaskState::Working(log) => {
            let head = concat3(" ", spinner(millis), " working…");
            put_log(Page::new().one(head.as_str(), bold(c.primary)), log, 8, c)
        },
        TaskState::Installed { name, dir, theme_count } => {
            let head = concat3(
                " ✓ Installed ",
                name.as_str(),
                note_of_themes(*theme_count).as_str(),
            );
            Page::new().one(head.as_str(), bold(c.success)).one(
                concat("   at ", dir.as_str()).as_str(),
                ink(c.outline_variant),
            )
        },
        TaskState::Results(repos) => {
            let mut page = Page::new();
            for i in 0..repos.len()
                invariant
                    page@ =~= repo_lines(repos@.take(i as int), *c),
            {
                page = page.one(
                    concat(" ", repos[i].summary().as_str()).as_str(),
                    ink(c.on_background),
                );
            }
            assert(repos@.take(repos@.len() as int) =~= repos@);
            page
        },
        TaskState::NotFound(q) => Page::new().one(
            concat3(" No repo found for '", q.as_str(), "'.").as_str(),
            ink(c.error),
        ),
        TaskState::Error(e) => Page::new().one(
            concat(" Error: ", e.as_str()).as_str(),
            ink(c.error),
        ),
    }
}

/// The line of an installed plugin.
pub open spec fn plugin_line(p: PluginRow, selected: bool, c: Palette) -> Seq<SpanView> {
    blank().push(pointer(selected, c)).push(
        span(cell(p.id@, 18), bold_if(c.on_background, selected)),
    ).push(
        if p.active {
            span(padded_left("[active]"@, 8) + " "@, ink(c.success))
        } else {
            span(padded_left("[     ]"@, 8) + " "@, ink(c.outline_variant))
        },
    ).push(span(truncated(p.source@, 34), ink(c.outline_variant)))
}

fn render_plugin_row(p: &PluginRow, selected: bool, c: &Palette) -> (r: Line)
    ensures
        r@ == plugin_line(*p, selected, *c),
{
    let line = point(selected, c).put(
        cell_text(p.id.as_str(), 18).as_str(),
        bold_if(c.on_background, selected),
    );
    let line = if p.active {
        line.put(concat(pad_left("[active]", 8).as_str(), " ").as_str(), ink(c.success))
    } else {
        line.put(concat(pad_left("[     ]", 8).as_str(), " ").as_str(), ink(c.outline_variant))
    };
    line.put(truncate_str(p.source.as_str(), 34).as_str(), ink(c.outline_variant))
}

/// The lines of the installed plugins.
pub open spec fn plugin_lines(s: Seq<PluginRow>, selected: int, c: Palette) -> Seq<Seq<SpanView>> {
    Seq::new(s.len(), |i: int| plugin_line(s[i], i == selected, c))
}

/// The list of the plugin manager: the state of the last task, and the installed
/// plugins.
pub open spec fn manager_lines(app: App, millis: int) -> Seq<Seq<SpanView>> {
    let c = app.theme.colors;
    let status = task_lines(app.plugin_state, millis, c);
    let head = if status.len() == 0 {
        status
    } else {
        status.push(blank())
    };
    if app.installed_plugins@.len() == 0 {
        head.push(
            one("  Nothing installed yet. Press i to install a plugin."@, ink(c.outline_variant)),
        )
    } else {
        head + plugin_lines(app.installed_plugins@, app.plugin_selected as int, c)
    }
}

/// The input line of the install pane.
pub open spec fn install_line(app: App) -> Seq<SpanView> {
    let c = app.theme.colors;
    blank().push(span(" "@ + app.input.text@, ink(c.on_background))).push(
        if app.input.text@.len() == 0 {
            span("https://github.com/…"@, ink(c.outline_variant))
        } else {
            raw(Seq::empty())
        },
    ).push(span("│"@, ink(c.primary)))
}

/// The lines below the input of the install pane.
pub open spec fn install_lines(app: App, millis: int) -> Seq<Seq<SpanView>> {
    let c = app.theme.colors;
    let status = task_lines(app.plugin_state, millis, c);
    if status.len() == 0 {
        no_lines().push(
            one("  Enter to start the install — Esc to cancel."@, ink(c.outline_variant)),
        )
    } else {
        status
    }
}

/// A box with one line of input.
#[derive(Debug)]
pub struct InputBox {
    pub title: String,
    pub title_style: Style,
    pub border: Style,
    pub line: Line,
}

/// Whether a box is the input of the install pane.
pub open spec fn is_install_box(b: InputBox, app: App) -> bool {
    &&& b.title@ == " install — GitHub link / owner/repo / terms "@
    &&& b.title_style == ink(app.theme.colors.primary)
    &&& b.border == bold(app.theme.colors.primary)
    &&& b.line@ == install_line(app)
}

/// Whether a popup is the plugin manager, below the input of its install pane, where
/// that has the focus.
pub open spec fn is_manager(
    input: Option<InputBox>,
    p: Popup,
    app: App,
    pane: PluginPane,
    millis: int,
) -> bool {
    &&& p.title@ == " Plugin Manager "@
    &&& p.percent_x == 76
    &&& p.percent_y == 72
    &&& p.border == app.theme.colors.primary
    &&& match pane {
        PluginPane::Install => input is Some && is_install_box(input->0, app) && p.page@
            == install_lines(app, millis),
        PluginPane::List => input is None && p.page@ == manager_lines(app, millis),
    }
}

fn manager_popup(page: Page, c: &Palette) -> (r: Popup)
    ensures
        r.title@ == " Plugin Manager "@,
        r.percent_x == 76,
        r.percent_y == 72,
        r.border == c.primary,
        r.page == page,
{
    Popup {
        title: " Plugin Manager ".to_string(),
        percent_x: 76,
        percent_y: 72,
        border: c.primary,
        page,
    }
}

/// The plugin manager: the input of the install pane, where it has the focus, and
/// the popup.
pub fn render_plugin_manager(app: &App, pane: PluginPane, millis: u64) -> (r: (
    Option<InputBox>,
    Popup,
))
    ensures
        is_manager(r.0, r.1, *app, pane, millis as int),
{
    let c = &app.theme.colors;
    let status = push_task_status(&app.plugin_state, millis, c);
    assert(status@.len() == status.lines@.len());
    match pane {
        PluginPane::Install => {
            let empty = String::new();
            assert(empty@ =~= Seq::empty());
            let line = Line::new().put(
                concat(" ", app.input.text.as_str()).as_str(),
                ink(c.on_background),
            );
            let line = if app.input.text.as_str().is_empty() {
                line.put("https://github.com/…", ink(c.outline_variant))
            } else {
                line.raw(empty.as_str())
            };
            let line = line.put("│", ink(c.primary));
            let page = if status.lines.len() == 0 {
                Page::new().one(
                    "  Enter to start the install — Esc to cancel.",
                    ink(c.outline_variant),
                )
            } else {
                status
            };
            let input = InputBox {
                title: " install — GitHub link / owner/repo / terms ".to_string(),
                title_style: ink(c.primary),
                border: bold(c.primary),
                line,
            };
            (Some(input), manager_popup(page, c))
        },
        PluginPane::List => {
            let mut page = if status.lines.len() == 0 {
                status
            } else {
                status.blank()
            };
            if app.installed_plugins.len() == 0 {
                let page = page.one(
                    "  Nothing installed yet. Press i to install a plugin.",
                    ink(c.outline_variant),
                );
                return (None, manager_popup(page, c));
            }
            let ghost head = page@;
            for i in 0..app.installed_plugins.len()
                invariant
                    c == &app.theme.colors,
                    page@ =~= head + plugin_lines(
                        app.installed_plugins@.take(i as int),
                        app.plugin_selected as int,
                        *c,
                    ),
            {
                page = page.line(
                    render_plugin_row(&app.installed_plugins[i], i == app.plugin_selected, c),
                );
            }
            assert(app.installed_plugins@.take(app.installed_plugins@.len() as int)
                =~= app.installed_plugins@);
            (None, manager_popup(page, c))
        },
    }
}

/// The help page of the plugin manager.
pub open spec fn plugin_help_lines(leader: Seq<char>, plugins: Seq<char>, c: Palette) -> Seq<
    Seq<SpanView>,
> {
    no_lines().push(blank()).push(one("  Open: "@ + leader + "+"@ + plugins, bold(c.primary))).push(
        blank(),
    ).push(plain("  ↑ / ↓, j / k     move selection"@)).push(
        plain("    Enter / a / ␣  activate · deactivate plugin"@),
    ).push(plain("    d              uninstall (files + registry)"@)).push(
        plain("    i / n          open the install input box"@),
    ).push(plain("    Enter          install from the input"@)).push(
        plain("    u              update all plugins (re-clone + build)"@),
    ).push(plain("    c              configure the selected plugin"@)).push(
        plain("    s              start / stop the selected [service]"@),
    ).push(plain("    ?              this help"@)).push(plain("    Esc            close"@)).push(
        blank(),
    ).push(one("  Installs clone the repo into"@, ink(c.outline_variant))).push(
        one("  ~/.local/share/cordanui/plugins/<repo>"@, ink(c.outline_variant)),
    ).push(one("  and register it active, most recent first."@, ink(c.outline_variant)))
}

/// The help page of the plugin manager.
pub fn render_plugin_help(app: &App) -> (r: Popup)
    ensures
        r.title@ == " Plugin Manager Help "@,
        r.percent_x == 55,
        r.percent_y == 55,
        r.border == app.theme.colors.primary,
        r.page@ == plugin_help_lines(
            app.keybinds.leader.label_spec(),
            app.keybinds.plugins.label_spec(),
            app.theme.colors,
        ),
{
    let c = &app.theme.colors;
    let open = concat4(
        "  Open: ",
        app.keybinds.leader.label().as_str(),
        "+",
        app.keybinds.plugins.label().as_str(),
    );
    let page = Page::new().blank().one(open.as_str(), bold(c.primary)).blank().plain(
        "  ↑ / ↓, j / k     move selection",
    ).plain("    Enter / a / ␣  activate · deactivate plugin").plain(
        "    d              uninstall (files + registry)",
    ).plain("    i / n          open the install input box").plain(
        "    Enter          install from the input",
    ).plain("    u              update all plugins (re-clone + build)").plain(
        "    c              configure the selected plugin",
    ).plain("    s              start / stop the selected [service]").plain(
        "    ?              this help",
    ).plain("    Esc            close").blank().one(
        "  Installs clone the repo into",
        ink(c.outline_variant),
    ).one("  ~/.local/share/cordanui/plugins/<repo>", ink(c.outline_variant)).one(
        "  and register it active, most recent first.",
        ink(c.outline_variant),
    );
    Popup { title: " Plugin Manager Help ".to_string(), percent_x: 55, percent_y: 55, border: c.primary, page }
}

} // verus!
