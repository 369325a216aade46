//! What the main screen shows: the header, the sheets bar, the goal list, the
//! input bar and the hint bar.

use crate::app::{repeats, App};
use crate::buffers::sorted_ids;
use crate::config::KeyBinding;
use crate::goals::{glyph, status_glyph};
use crate::json::{object_of, parse_object, parse_under, string_of, value_of};
use crate::plugin_ui::modal_text;
use crate::popups::{cursor_mark, mark};
use crate::schema::{AgentStatus, Goal, GoalSheet, GoalStatus};
use crate::text::{
    after_prefix, concat, decimal, from_chars, less, number, opt, opt_or_empty, opt_text, repeat,
    split, split_chars, str_eq, str_less, strip_prefix, texts, times, to_chars, trim_chars, trimmed,
    truncate, truncated, views,
};
use crate::theme::{Color, Palette};
use crate::tree::{partially_complete, rows_view, FlatRow, Row};
use crate::types::{ago, format_ago, Mode, PluginModalKind, PluginPane, SyncStatus};
use crate::view::{
    badge, bold, concat3, concat4, ink, one, raw, slanted, span, struck, unstyled, blank, no_lines,
    Line, Page, SpanView, Style,
};
use vstd::prelude::*;

verus! {

/// A text of at most `max` characters, with an ellipsis where it was longer.
pub fn truncate_str(s: &str, max: usize) -> (r: String)
    ensures
        r@ == truncated(s@, max as nat),
{
    truncate(s, max)
}

/// The color of a status.
pub open spec fn status_color(s: GoalStatus, c: Palette) -> Color {
    match s {
        GoalStatus::Pending => c.on_surface_variant,
        GoalStatus::InProgress => c.primary,
        GoalStatus::Completed => c.success,
        GoalStatus::AgentMode => c.tertiary,
    }
}

/// The mark and the color of a status.
pub fn status_style(s: GoalStatus, c: &Palette) -> (r: (&'static str, Color))
    ensures
        r.0@ == glyph(s),
        r.1 == status_color(s, *c),
{
    let color = match s {
        GoalStatus::Pending => c.on_surface_variant,
        GoalStatus::InProgress => c.primary,
        GoalStatus::Completed => c.success,
        GoalStatus::AgentMode => c.tertiary,
    };
    (status_glyph(s), color)
}

// ---------- header ----------

/// The number of completed goals.
pub open spec fn completed(goals: Seq<Goal>) -> nat
    decreases goals.len(),
{
    if goals.len() == 0 {
        0
    } else {
        completed(goals.drop_last()) + (if goals.last().status == GoalStatus::Completed {
            1nat
        } else {
            0nat
        })
    }
}

/// Completed goals are never more than all goals.
pub proof fn law_completed_fits(goals: Seq<Goal>)
    ensures
        completed(goals) <= goals.len(),
    decreases goals.len(),
{
    if goals.len() > 0 {
        law_completed_fits(goals.drop_last());
    }
}

fn count_completed(goals: &Vec<Goal>) -> (r: usize)
    ensures
        r == completed(goals@),
        r <= goals.len(),
{
    let mut n: usize = 0;
    assert(goals@.take(0) =~= Seq::empty());
    for i in 0..goals.len()
        invariant
            n == completed(goals@.take(i as int)),
            n <= i,
    {
        assert(goals@.take(i + 1).drop_last() =~= goals@.take(i as int));
        if goals[i].status == GoalStatus::Completed {
            n = n + 1;
        }
    }
    assert(goals@.take(goals@.len() as int) =~= goals@);
    n
}

/// The time since an event, in seconds.
pub open spec fn since(at: u64, now: u64) -> nat {
    if now >= at {
        (now - at) as nat
    } else {
        0
    }
}

fn seconds_since(at: u64, now: u64) -> (r: u64)
    ensures
        r == since(at, now),
{
    if now >= at {
        now - at
    } else {
        0
    }
}

/// The state of the sync in the header.
pub open spec fn sync_text(s: SyncStatus, now: u64) -> Seq<char> {
    match s {
        SyncStatus::NotConfigured => "sync off"@,
        SyncStatus::Syncing => "syncing…"@,
        SyncStatus::Synced { at } => "synced "@ + ago(since(at, now)),
        SyncStatus::Failed { at, error } => "sync failed "@ + ago(since(at, now)) + " — "@
            + truncated(error@, 40),
    }
}

/// The color of the state of the sync.
pub open spec fn sync_color(s: SyncStatus, c: Palette) -> Color {
    match s {
        SyncStatus::NotConfigured => c.outline_variant,
        SyncStatus::Syncing => c.on_surface_variant,
        SyncStatus::Synced { .. } => c.success,
        SyncStatus::Failed { .. } => c.error,
    }
}

fn sync_span(s: &SyncStatus, now: u64, c: &Palette) -> (r: (String, Color))
    ensures
        r.0@ == sync_text(*s, now),
        r.1 == sync_color(*s, *c),
{
    match s {
        SyncStatus::NotConfigured => ("sync off".to_string(), c.outline_variant),
        SyncStatus::Syncing => ("syncing…".to_string(), c.on_surface_variant),
        SyncStatus::Synced { at } => (
            concat("synced ", format_ago(seconds_since(*at, now)).as_str()),
            c.success,
        ),
        SyncStatus::Failed { at, error } => (
            concat4(
                "sync failed ",
                format_ago(seconds_since(*at, now)).as_str(),
                " — ",
                truncate_str(error.as_str(), 40).as_str(),
            ),
            c.error,
        ),
    }
}

/// The header: the name, the theme, how many goals are done, and the sync.
pub open spec fn header(app: App, now: u64) -> Seq<SpanView> {
    let c = app.theme.colors;
    let n = app.goals@.len();
    let done = completed(app.goals@);
    blank().push(span(" cordanui "@, bold(c.primary))).push(
        span(" · "@ + app.theme.name@ + " "@, ink(c.outline_variant)),
    ).push(
        span(
            " "@ + decimal(done) + " / "@ + decimal(n) + " done · "@ + decimal((n - done) as nat)
                + " pending"@,
            ink(c.outline_variant),
        ),
    ).push(
        span(" · "@ + sync_text(app.sync_status, now), ink(sync_color(app.sync_status, c))),
    )
}

/// The header: the name, the theme, how many goals are done, and the sync.
pub fn render_header(app: &App, now: u64) -> (r: Line)
    ensures
        r@ == header(*app, now),
{
    let c = &app.theme.colors;
    let total: usize = app.goals.len();
    let done: usize = count_completed(&app.goals);
    let pending: usize = total - done;
    let a = concat4(" ", number(done as u64).as_str(), " / ", number(total as u64).as_str());
    let stats = concat4(a.as_str(), " done · ", number(pending as u64).as_str(), " pending");
    let (text, color) = sync_span(&app.sync_status, now, c);
    Line::new().put(" cordanui ", bold(c.primary)).put(
        concat3(" · ", app.theme.name.as_str(), " ").as_str(),
        ink(c.outline_variant),
    ).put(stats.as_str(), ink(c.outline_variant)).put(
        concat(" · ", text.as_str()).as_str(),
        ink(color),
    )
}

// ---------- sheets bar ----------

/// A tab of the sheets bar and the space behind it.
pub open spec fn tab(label: Seq<char>, style: Style) -> Seq<SpanView> {
    blank().push(span(" "@ + label + " "@, style)).push(raw(" "@))
}

/// The tabs of the sheets.
pub open spec fn sheet_tabs(sheets: Seq<GoalSheet>, active: Option<Seq<char>>, c: Palette) -> Seq<
    SpanView,
>
    decreases sheets.len(),
{
    if sheets.len() == 0 {
        blank()
    } else {
        sheet_tabs(sheets.drop_last(), active, c) + tab(
            sheets.last().name@,
            if active == Some(sheets.last().id@) {
                badge(c.on_primary, c.primary)
            } else {
                ink(c.on_background)
            },
        )
    }
}

/// The name of a buffer without its prefix.
pub open spec fn buffer_label(id: Seq<char>) -> Seq<char> {
    match after_prefix(id, "buffer:"@) {
        Some(name) => name,
        None => id,
    }
}

/// The name of a buffer without its prefix.
pub fn label_of_buffer(id: &str) -> (r: String)
    ensures
        r@ == buffer_label(id@),
{
    let v = to_chars(id);
    match strip_prefix(&v, "buffer:") {
        Some(name) => from_chars(&name),
        None => id.to_owned(),
    }
}

/// The tabs of the buffers.
pub open spec fn buffer_tabs(ids: Seq<Seq<char>>, active: Option<Seq<char>>, c: Palette) -> Seq<
    SpanView,
>
    decreases ids.len(),
{
    if ids.len() == 0 {
        blank()
    } else {
        buffer_tabs(ids.drop_last(), active, c) + tab(
            buffer_label(ids.last()),
            if active == Some(ids.last()) {
                badge(c.on_primary, c.tertiary)
            } else {
                ink(c.tertiary)
            },
        )
    }
}

/// The sheets bar: all goals, the sheets, and the buffers in order.
pub open spec fn sheets_bar(app: App, ids: Seq<Seq<char>>) -> Seq<SpanView> {
    let c = app.theme.colors;
    let all = app.sheet_manager.active is None && app.buffer_manager.active is None;
    tab(
        "All"@,
        if all {
            badge(c.on_primary, c.primary)
        } else {
            ink(c.outline_variant)
        },
    ) + sheet_tabs(app.sheets@, opt(app.sheet_manager.active), c) + buffer_tabs(
        ids,
        opt(app.buffer_manager.active),
        c,
    )
}

fn put_tab(line: Line, label: &str, style: Style) -> (r: Line)
    ensures
        r@ == line@ + tab(label@, style),
{
    let r = line.put(concat3(" ", label, " ").as_str(), style).raw(" ");
    assert(r@ =~= line@ + tab(label@, style));
    r
}

/// The sheets bar.
pub fn render_sheets_bar(app: &App) -> (r: Line)
    ensures
        exists|ids: Seq<Seq<char>>| #[trigger]
            sorted_ids(ids, app.buffer_manager.buffers@.dom()) && r@ == sheets_bar(*app, ids),
{
    let c = &app.theme.colors;
    let all = app.sheet_manager.active.is_none() && app.buffer_manager.active.is_none();
    let style = if all {
        badge(c.on_primary, c.primary)
    } else {
        ink(c.outline_variant)
    };
    let mut line = put_tab(Line::new(), "All", style);
    assert(line@ =~= tab("All"@, style));
    let ghost start = line@;
    assert(app.sheets@.take(0) =~= Seq::empty());
    for i in 0..app.sheets.len()
        invariant
            line@ =~= start + sheet_tabs(
                app.sheets@.take(i as int),
                opt(app.sheet_manager.active),
                *c,
            ),
    {
        assert(app.sheets@.take(i + 1).drop_last() =~= app.sheets@.take(i as int));
        let s = &app.sheets[i];
        let style = if crate::text::opt_is(&app.sheet_manager.active, s.id.as_str()) {
            badge(c.on_primary, c.primary)
        } else {
            ink(c.on_background)
        };
        line = put_tab(line, s.name.as_str(), style);
    }
    assert(app.sheets@.take(app.sheets@.len() as int) =~= app.sheets@);
    let ids = app.buffer_manager.list_buffers();
    let ghost names = texts(ids@);
    let ghost before = line@;
    assert(names.take(0) =~= Seq::empty());
    for i in 0..ids.len()
        invariant
            names == texts(ids@),
            line@ =~= before + buffer_tabs(
                names.take(i as int),
                opt(app.buffer_manager.active),
                *c,
            ),
    {
        assert(names.take(i + 1).drop_last() =~= names.take(i as int));
        assert(names.take(i + 1).last() == ids@[i as int]@);
        let id = ids[i].as_str();
        let style = if crate::text::opt_is(&app.buffer_manager.active, id) {
            badge(c.on_primary, c.tertiary)
        } else {
            ink(c.tertiary)
        };
        line = put_tab(line, label_of_buffer(id).as_str(), style);
    }
    assert(names.take(names.len() as int) =~= names);
    assert(sorted_ids(names, app.buffer_manager.buffers@.dom()));
    line
}

// ---------- goal list ----------

/// Whether a goal is overdue at a time: its due date is before it, and it is not
/// done.
pub open spec fn overdue(g: Goal, now: Seq<char>) -> bool {
    g.due_at is Some && str_less(g.due_at->0@, now) && g.status != GoalStatus::Completed
}

/// The line of a goal: indented by its depth, with the fold mark, the status, the
/// title, and badges for the due date, the reminder and the repeat rule.
pub open spec fn goal_line(row: Row, partial: bool, now: Seq<char>, c: Palette) -> Seq<SpanView> {
    let g = row.goal;
    let done = g.status == GoalStatus::Completed;
    let fold = if row.has_children {
        if row.expanded {
            "▾ "@
        } else {
            "▸ "@
        }
    } else {
        "  "@
    };
    let mark = if partial {
        "◎"@
    } else {
        glyph(g.status)
    };
    let color = if partial {
        c.success
    } else {
        status_color(g.status, c)
    };
    let title = if done {
        struck(c.outline_variant)
    } else {
        ink(c.on_background)
    };
    let line = blank().push(raw(times("  "@, row.depth as nat))).push(raw(fold)).push(
        span(mark + " "@, ink(color)),
    ).push(span(g.title@, title));
    let line = match g.due_at {
        Some(due) => line.push(
            span(
                "  📅 "@ + due@,
                if overdue(g, now) {
                    ink(c.error)
                } else {
                    ink(c.tertiary)
                },
            ),
        ),
        None => line,
    };
    let line = match g.remind_at {
        Some(t) => line.push(span("  ⏰ "@ + t@, ink(c.tertiary))),
        None => line,
    };
    match repeats(g) {
        Some(rule) => line.push(span("  ↻ "@ + rule, ink(c.tertiary))),
        None => line,
    }
}

fn render_goal_line(row: &FlatRow, partial: bool, now: &str, c: &Palette) -> (r: Line)
    ensures
        r@ == goal_line(row@, partial, now@, *c),
{
    let g = &row.goal;
    let fold = if row.has_children {
        if row.expanded {
            "▾ "
        } else {
            "▸ "
        }
    } else {
        "  "
    };
    let (mark, color) = if partial {
        ("◎", c.success)
    } else {
        status_style(g.status, c)
    };
    let done = g.status == GoalStatus::Completed;
    let title = if done {
        struck(c.outline_variant)
    } else {
        ink(c.on_background)
    };
    let mut line = Line::new().raw(repeat("  ", row.depth).as_str()).raw(fold).put(
        concat(mark, " ").as_str(),
        ink(color),
    ).put(g.title.as_str(), title);
    if let Some(due) = &g.due_at {
        let style = if less(due.as_str(), now) && !done {
            ink(c.error)
        } else {
            ink(c.tertiary)
        };
        line = line.put(concat("  📅 ", due.as_str()).as_str(), style);
    }
    if let Some(t) = &g.remind_at {
        line = line.put(concat("  ⏰ ", t.as_str()).as_str(), ink(c.tertiary));
    }
    if let Some(rule) = &g.repeat_rule {
        if !rule.as_str().is_empty() && !str_eq(rule.as_str(), "none") {
            line = line.put(concat("  ↻ ", rule.as_str()).as_str(), ink(c.tertiary));
        }
    }
    line
}

/// A string member of the object that a text denotes.
pub open spec fn text_member(text: Seq<char>, key: Seq<char>) -> Option<Seq<char>> {
    match object_of(text) {
        Some(m) => if m.contains_key(key) {
            string_of(m[key])
        } else {
            None
        },
        None => None,
    }
}

fn member_of(text: &str, key: &str) -> (r: Option<String>)
    ensures
        opt(r) == text_member(text@, key@),
{
    match parse_object(text) {
        Some(m) => crate::json::member_string(&m, key),
        None => None,
    }
}

/// The name of the state of an agent run.
pub open spec fn agent_word(s: AgentStatus) -> Seq<char> {
    match s {
        AgentStatus::Queued => "queued"@,
        AgentStatus::Running => "running"@,
        AgentStatus::Completed => "completed"@,
        AgentStatus::Failed => "failed"@,
    }
}

/// The name of the state of an agent run.
pub fn agent_name(s: AgentStatus) -> (r: &'static str)
    ensures
        r@ == agent_word(s),
{
    match s {
        AgentStatus::Queued => "queued",
        AgentStatus::Running => "running",
        AgentStatus::Completed => "completed",
        AgentStatus::Failed => "failed",
    }
}

/// The color of the state of an agent run.
pub open spec fn agent_color(s: AgentStatus, c: Palette) -> Color {
    match s {
        AgentStatus::Completed => c.success,
        AgentStatus::Failed => c.error,
        AgentStatus::Running => c.primary,
        AgentStatus::Queued => c.tertiary,
    }
}

/// The progress that a progress report shows: its message and its detail. A text
/// that is not JSON shows none.
pub open spec fn progress_text(report: Seq<char>) -> Option<Seq<char>> {
    if value_of(report) is None {
        None
    } else {
        let message = match text_member(report, "message"@) {
            Some(m) => m,
            None => report,
        };
        match text_member(report, "detail"@) {
            Some(d) => if d.len() == 0 {
                Some(message)
            } else {
                Some(message + " — "@ + d)
            },
            None => Some(message),
        }
    }
}

fn shown_progress(report: &str) -> (r: Option<String>)
    ensures
        opt(r) == progress_text(report@),
{
    if parse_under("progress", report).is_none() {
        return None;
    }
    let message = match member_of(report, "message") {
        Some(m) => m,
        None => report.to_owned(),
    };
    let detail = match member_of(report, "detail") {
        Some(d) => d,
        None => {
            return Some(message);
        },
    };
    if detail.as_str().is_empty() {
        Some(message)
    } else {
        Some(concat3(message.as_str(), " — ", detail.as_str()))
    }
}

/// A line below a goal.
pub open spec fn below(text: Seq<char>, style: Style) -> Seq<SpanView> {
    blank().push(raw(Seq::empty())).push(span(text, style))
}

fn put_below(page: Page, text: &str, style: Style) -> (r: Page)
    ensures
        r@ == page@.push(below(text@, style)),
{
    let empty = String::new();
    assert(empty@ =~= Seq::empty());
    page.line(Line::new().raw(empty.as_str()).put(text, style))
}

/// The first `max` of some texts, each on a line of its own behind a lead;
/// blank ones are left out where `skip_blank` says so.
pub open spec fn first_lines(
    parts: Seq<Seq<char>>,
    max: int,
    lead: Seq<char>,
    skip_blank: bool,
    style: Style,
) -> Seq<Seq<SpanView>>
    decreases parts.len(),
{
    if parts.len() == 0 {
        no_lines()
    } else {
        let before = first_lines(parts.drop_last(), max, lead, skip_blank, style);
        if parts.len() > max || (skip_blank && trimmed(parts.last()).len() == 0) {
            before
        } else {
            before.push(below(lead + parts.last(), style))
        }
    }
}

fn put_first_lines(
    page: Page,
    text: &str,
    max: usize,
    lead: &str,
    skip_blank: bool,
    style: Style,
) -> (r: Page)
    ensures
        r@ == page@ + first_lines(split(text@, '\n'), max as int, lead@, skip_blank, style),
{
    let chars = to_chars(text);
    let parts = split_chars(&chars, '\n');
    let ghost all = views(parts@);
    let ghost start = page@;
    let mut page = page;
    assert(all.take(0) =~= Seq::empty());
    for i in 0..parts.len()
        invariant
            all == views(parts@),
            page@ =~= start + first_lines(all.take(i as int), max as int, lead@, skip_blank, style),
    {
        assert(all.take(i + 1).drop_last() =~= all.take(i as int));
        assert(all.take(i + 1).last() == parts@[i as int]@);
        if i < max {
            let is_blank = trim_chars(&parts[i]).len() == 0;
            if !(skip_blank && is_blank) {
                let part = from_chars(&parts[i]);
                page = put_below(page, concat(lead, part.as_str()).as_str(), style);
            }
        }
    }
    assert(all.take(all.len() as int) =~= all);
    page
}

/// What is shown of the state of an agent run below a goal: its progress in at
/// most three lines, its result in at most eight, and a note where the result is
/// longer than eight hundred characters.
pub open spec fn agent_lines(g: Goal, indent: Seq<char>, c: Palette) -> Seq<Seq<SpanView>> {
    match g.agent_status {
        None => no_lines(),
        Some(status) => {
            let head = no_lines().push(
                below(indent + "      ↳ "@ + agent_word(status), bold(agent_color(status, c))),
            );
            let progress = match g.agent_progress {
                Some(p) => match progress_text(p@) {
                    Some(t) => first_lines(
                        split(t, '\n'),
                        3,
                        indent + "        "@,
                        false,
                        ink(c.on_surface_variant),
                    ),
                    None => no_lines(),
                },
                None => no_lines(),
            };
            let result = match g.agent_result {
                Some(r) => match text_member(r@, "content"@) {
                    Some(t) => first_lines(
                        split(t, '\n'),
                        8,
                        indent + "      "@,
                        true,
                        ink(c.on_surface),
                    ) + (if t.len() > 800 {
                        no_lines().push(
                            below(
                                indent + "      … (truncated, "@ + decimal(t.len()) + " chars)"@,
                                ink(c.outline_variant),
                            ),
                        )
                    } else {
                        no_lines()
                    }),
                    None => no_lines(),
                },
                None => no_lines(),
            };
            head + progress + result
        },
    }
}

fn put_result(page: Page, text: &str, indent: &str, c: &Palette) -> (r: Page)
    ensures
        r@ == page@ + (first_lines(
            split(text@, '\n'),
            8,
            indent@ + "      "@,
            true,
            ink(c.on_surface),
        ) + (if text@.len() > 800 {
            no_lines().push(
                below(
                    indent@ + "      … (truncated, "@ + decimal(text@.len()) + " chars)"@,
                    ink(c.outline_variant),
                ),
            )
        } else {
            no_lines()
        })),
{
    let lead = concat(indent, "      ");
    let ghost start = page@;
    let page = put_first_lines(page, text, 8, lead.as_str(), true, ink(c.on_surface));
    let n: usize = to_chars(text).len();
    if n > 800 {
        let note = concat4(
            indent,
            "      … (truncated, ",
            number(n as u64).as_str(),
            " chars)",
        );
        let page = put_below(page, note.as_str(), ink(c.outline_variant));
        assert(page@ =~= start + (first_lines(
            split(text@, '\n'),
            8,
            lead@,
            true,
            ink(c.on_surface),
        ) + no_lines().push(below(note@, ink(c.outline_variant)))));
        page
    } else {
        assert(page@ =~= start + (first_lines(
            split(text@, '\n'),
            8,
            lead@,
            true,
            ink(c.on_surface),
        ) + no_lines()));
        page
    }
}

#[verifier::rlimit(40)]
fn put_agent_lines(page: Page, g: &Goal, indent: &str, c: &Palette) -> (r: Page)
    ensures
        r@ == page@ + agent_lines(*g, indent@, *c),
{
    let ghost start = page@;
    let status = match g.agent_status {
        Some(s) => s,
        None => {
            assert(page@ =~= start + no_lines());
            return page;
        },
    };
    let color = match status {
        AgentStatus::Completed => c.success,
        AgentStatus::Failed => c.error,
        AgentStatus::Running => c.primary,
        AgentStatus::Queued => c.tertiary,
    };
    let ghost head = no_lines().push(
        below(indent@ + "      ↳ "@ + agent_word(status), bold(agent_color(status, *c))),
    );
    let text = concat3(indent, "      ↳ ", agent_name(status));
    let mut page = put_below(page, text.as_str(), bold(color));
    assert(page@ =~= start + head);
    let ghost mut progress = no_lines();
    if let Some(p) = &g.agent_progress {
        if let Some(t) = shown_progress(p.as_str()) {
            let lead = concat(indent, "        ");
            let ghost before = page@;
            page = put_first_lines(
                page,
                t.as_str(),
                3,
                lead.as_str(),
                false,
                ink(c.on_surface_variant),
            );
            proof {
                progress = first_lines(
                    split(t@, '\n'),
                    3,
                    indent@ + "        "@,
                    false,
                    ink(c.on_surface_variant),
                );
            }
        }
    }
    assert(page@ =~= start + (head + progress));
    if let Some(res) = &g.agent_result {
        if let Some(t) = member_of(res.as_str(), "content") {
            let ghost before = page@;
            page = put_result(page, t.as_str(), indent, c);
            assert(page@ =~= start + agent_lines(*g, indent@, *c));
            return page;
        }
    }
    assert(page@ =~= start + agent_lines(*g, indent@, *c));
    page
}

/// The lines of a goal: its own, and below it, where its details are shown, the
/// description and the agent run.
pub open spec fn goal_lines(
    row: Row,
    partial: bool,
    detailed: bool,
    now: Seq<char>,
    c: Palette,
) -> Seq<Seq<SpanView>> {
    let indent = times("  "@, row.depth as nat);
    let first = no_lines().push(goal_line(row, partial, now, c));
    if !detailed {
        first
    } else {
        first.push(
            below(
                indent + "      "@ + (match row.goal.description {
                    Some(d) => d@,
                    None => "(no description)"@,
                }),
                ink(c.on_surface_variant),
            ),
        ) + agent_lines(row.goal, indent, c)
    }
}

/// The lines of a goal.
pub fn render_goal(row: &FlatRow, partial: bool, detailed: bool, now: &str, c: &Palette) -> (r: Page)
    ensures
        r@ == goal_lines(row@, partial, detailed, now@, *c),
{
    let page = Page::new().line(render_goal_line(row, partial, now, c));
    if !detailed {
        return page;
    }
    let indent = repeat("  ", row.depth);
    let desc = match &row.goal.description {
        Some(d) => d.clone(),
        None => "(no description)".to_string(),
    };
    let text = concat3(indent.as_str(), "      ", desc.as_str());
    let page = put_below(page, text.as_str(), ink(c.on_surface_variant));
    put_agent_lines(page, &row.goal, indent.as_str(), c)
}

/// The last row, which stands for a new goal at the root.
pub open spec fn new_root_line(c: Palette) -> Seq<SpanView> {
    blank().push(raw("  "@)).push(span("⊕  New root goal"@, slanted(c.outline_variant))).push(
        span("  (select here → leader+n)"@, ink(c.outline_variant)),
    )
}

/// Whether something below the goal of a row is not completed.
pub open spec fn partial_row(app: App, row: Row) -> bool {
    exists|i: int|
        0 <= i < app.goals@.len() && (#[trigger] app.goals@[i]).id@ == row.goal.id@
            && partially_complete(app.goals@, app.goals@[i])
}

/// Whether some pages are the goal list: one for each visible row, and one for a new
/// root goal.
pub open spec fn goals_listed(r: Seq<Page>, app: App, now: Seq<char>) -> bool {
    &&& r.len() == app.rows().len() + 1
    &&& forall|i: int|
        0 <= i < app.rows().len() ==> (#[trigger] r[i])@ == goal_lines(
            app.rows()[i],
            partial_row(app, app.rows()[i]),
            opt(app.detailed) == Some(app.rows()[i].goal.id@),
            now,
            app.theme.colors,
        )
    &&& r.last()@ == no_lines().push(new_root_line(app.theme.colors))
}

/// The goal list: its pages, and how the selected one is set off.
#[derive(Debug)]
pub struct GoalList {
    pub pages: Vec<Page>,
    pub highlight: Style,
    pub mark: &'static str,
}

/// Whether a list is the goal list: the selected page is bold on the surface color,
/// behind a mark.
pub open spec fn is_goal_list(r: GoalList, app: App, now: Seq<char>) -> bool {
    &&& goals_listed(r.pages@, app, now)
    &&& r.highlight == (Style { bg: Some(app.theme.colors.surface), bold: true, ..unstyled() })
    &&& r.mark@ == cursor_mark(true)
}

/// The goal list: a page for each visible row, and one for a new root goal.
pub fn render_goal_list(app: &App, now: &str) -> (r: GoalList)
    requires
        app.wf(),
    ensures
        is_goal_list(r, *app, now@),
{
    let c = &app.theme.colors;
    let rows = app.flat_rows();
    let partial = app.partially_complete_ids();
    let mut out: Vec<Page> = Vec::new();
    assert(rows@.len() == app.rows().len());
    for i in 0..rows.len()
        invariant
            rows_view(rows@) == app.rows(),
            rows@.len() == app.rows().len(),
            c == &app.theme.colors,
            forall|x: Seq<char>| #[trigger]
                partial@.contains(x) <==> exists|i: int|
                    0 <= i < app.goals@.len() && (#[trigger] app.goals@[i]).id@ == x
                        && partially_complete(app.goals@, app.goals@[i]),
            out@.len() == i,
            forall|k: int|
                0 <= k < i ==> (#[trigger] out@[k])@ == goal_lines(
                    app.rows()[k],
                    partial_row(*app, app.rows()[k]),
                    opt(app.detailed) == Some(app.rows()[k].goal.id@),
                    now@,
                    app.theme.colors,
                ),
    {
        let row = &rows[i];
        assert(app.rows()[i as int] == row@);
        let is_partial = partial.contains(row.goal.id.as_str());
        assert(is_partial == partial_row(*app, row@));
        let detailed = crate::text::opt_is(&app.detailed, row.goal.id.as_str());
        out.push(render_goal(row, is_partial, detailed, now, c));
    }
    let last = Line::new().raw("  ").put("⊕  New root goal", slanted(c.outline_variant)).put(
        "  (select here → leader+n)",
        ink(c.outline_variant),
    );
    out.push(Page::new().line(last));
    GoalList {
        pages: out,
        highlight: Style {
            fg: None,
            bg: Some(c.surface),
            bold: true,
            italic: false,
            crossed_out: false,
        },
        mark: mark(true),
    }
}

// ---------- input bar ----------

/// The label of the input bar.
pub open spec fn bar_label(app: App) -> Seq<char> {
    match app.mode {
        Mode::Normal => match app.message {
            Some(m) => if m@.len() == 0 {
                " NORMAL "@
            } else {
                " "@ + m@ + " "@
            },
            None => " NORMAL "@,
        },
        Mode::AddGoal { parent_id } => if parent_id is Some {
            " Add subgoal: "@
        } else {
            " Add goal: "@
        },
        Mode::FullResult { .. } => " Full result "@,
        Mode::EditTitle { .. } => " Edit title: "@,
        Mode::EditDescription { .. } => " Edit description: "@,
        Mode::EditDue { .. } => " Due: "@,
        Mode::EditReminder { .. } => " Remind: "@,
        Mode::EditRepeat { .. } => " Repeat: "@,
        Mode::ConfirmDelete { .. } => " DELETE "@,
        Mode::ConfirmPurge => " CONFIRM PURGE "@,
        Mode::Help => " HELP "@,
        Mode::PluginManager { .. } | Mode::PluginHelp | Mode::PluginConfigure { .. } => match app.message {
            Some(m) => " "@ + m@ + " "@,
            None => " PLUGIN "@,
        },
        Mode::AgentPicker { .. } | Mode::AgentRunning { .. } => " AGENT "@,
        Mode::MovePicker { .. } => " MOVE "@,
        Mode::SheetPicker => " SHEET "@,
        Mode::AddSheet => " New sheet: "@,
        Mode::ConfirmDeleteSheet { .. } => " DELETE SHEET "@,
        Mode::PluginModal => " PLUGIN DIALOG "@,
        Mode::PluginPanel => " PLUGIN PANEL "@,
        Mode::Command => " COMMAND "@,
        Mode::AssignRange => " Assign @1-6: "@,
        Mode::GlobalConfig => " GLOBAL SETTINGS "@,
        Mode::Stats => " STATS "@,
    }
}

/// The text behind the label: what is being entered.
pub open spec fn bar_text(app: App) -> Seq<char> {
    match app.mode {
        Mode::AddGoal { .. }
        | Mode::EditTitle { .. }
        | Mode::EditDescription { .. }
        | Mode::EditDue { .. }
        | Mode::EditReminder { .. }
        | Mode::EditRepeat { .. }
        | Mode::AddSheet
        | Mode::Command
        | Mode::AssignRange => app.input.text@,
        Mode::PluginManager { .. } | Mode::PluginHelp | Mode::PluginConfigure { .. } => if app.message
            is Some {
            Seq::empty()
        } else {
            app.input.text@
        },
        Mode::PluginModal => match modal_text(app.plugin_modal) {
            Some(t) => t,
            None => Seq::empty(),
        },
        Mode::GlobalConfig => opt_or_empty(app.config_editing),
        _ => Seq::empty(),
    }
}

/// The color of the label.
pub open spec fn bar_color(mode: Mode, c: Palette) -> Color {
    match mode {
        Mode::Normal => c.outline_variant,
        Mode::Command | Mode::GlobalConfig | Mode::AssignRange => c.secondary,
        Mode::ConfirmDelete { .. } | Mode::ConfirmDeleteSheet { .. } | Mode::ConfirmPurge => c.error,
        _ => c.primary,
    }
}

/// Whether a cursor is shown behind the text.
pub open spec fn bar_cursor(mode: Mode) -> bool {
    match mode {
        Mode::AddGoal { .. }
        | Mode::EditTitle { .. }
        | Mode::EditDescription { .. }
        | Mode::EditDue { .. }
        | Mode::EditReminder { .. }
        | Mode::EditRepeat { .. }
        | Mode::PluginManager { .. }
        | Mode::AddSheet => true,
        _ => false,
    }
}

/// The input bar: the armed leader key, the label, the text and the cursor.
pub open spec fn input_bar(app: App) -> Seq<SpanView> {
    let c = app.theme.colors;
    let leader = if app.leader_pending {
        span(
            " LEADER ("@ + app.keybinds.leader.label_spec() + ") "@,
            badge(c.on_primary, c.primary),
        )
    } else {
        raw(Seq::empty())
    };
    let cursor = if bar_cursor(app.mode) {
        span("│"@, ink(c.on_surface_variant))
    } else {
        raw(Seq::empty())
    };
    blank().push(leader).push(span(bar_label(app), ink(bar_color(app.mode, c)))).push(
        span(bar_text(app), ink(c.on_background)),
    ).push(cursor)
}

fn message_label(message: &String) -> (r: String)
    ensures
        r@ == " "@ + message@ + " "@,
{
    concat3(" ", message.as_str(), " ")
}

#[verifier::rlimit(40)]
fn label_of_bar(app: &App) -> (r: String)
    ensures
        r@ == bar_label(*app),
{
    match &app.mode {
        Mode::Normal => match &app.message {
            Some(m) => {
                if m.as_str().is_empty() {
                    " NORMAL ".to_string()
                } else {
                    message_label(m)
                }
            },
            None => " NORMAL ".to_string(),
        },
        Mode::AddGoal { parent_id } => {
            if parent_id.is_some() {
                " Add subgoal: ".to_string()
            } else {
                " Add goal: ".to_string()
            }
        },
        Mode::FullResult { .. } => " Full result ".to_string(),
        Mode::EditTitle { .. } => " Edit title: ".to_string(),
        Mode::EditDescription { .. } => " Edit description: ".to_string(),
        Mode::EditDue { .. } => " Due: ".to_string(),
        Mode::EditReminder { .. } => " Remind: ".to_string(),
        Mode::EditRepeat { .. } => " Repeat: ".to_string(),
        Mode::ConfirmDelete { .. } => " DELETE ".to_string(),
        Mode::ConfirmPurge => " CONFIRM PURGE ".to_string(),
        Mode::Help => " HELP ".to_string(),
        Mode::PluginManager { .. } | Mode::PluginHelp | Mode::PluginConfigure { .. } => match &app.message {
            Some(m) => message_label(m),
            None => " PLUGIN ".to_string(),
        },
        Mode::AgentPicker { .. } | Mode::AgentRunning { .. } => " AGENT ".to_string(),
        Mode::MovePicker { .. } => " MOVE ".to_string(),
        Mode::SheetPicker => " SHEET ".to_string(),
        Mode::AddSheet => " New sheet: ".to_string(),
        Mode::ConfirmDeleteSheet { .. } => " DELETE SHEET ".to_string(),
        Mode::PluginModal => " PLUGIN DIALOG ".to_string(),
        Mode::PluginPanel => " PLUGIN PANEL ".to_string(),
        Mode::Command => " COMMAND ".to_string(),
        Mode::AssignRange => " Assign @1-6: ".to_string(),
        Mode::GlobalConfig => " GLOBAL SETTINGS ".to_string(),
        Mode::Stats => " STATS ".to_string(),
    }
}

fn nothing() -> (r: String)
    ensures
        r@ == Seq::<char>::empty(),
{
    let s = String::new();
    assert(s@ =~= Seq::empty());
    s
}

fn text_of_bar(app: &App) -> (r: String)
    ensures
        r@ == bar_text(*app),
{
    match &app.mode {
        Mode::AddGoal { .. }
        | Mode::EditTitle { .. }
        | Mode::EditDescription { .. }
        | Mode::EditDue { .. }
        | Mode::EditReminder { .. }
        | Mode::EditRepeat { .. }
        | Mode::AddSheet
        | Mode::Command
        | Mode::AssignRange => app.input.text.clone(),
        Mode::PluginManager { .. } | Mode::PluginHelp | Mode::PluginConfigure { .. } => {
            if app.message.is_some() {
                nothing()
            } else {
                app.input.text.clone()
            }
        },
        Mode::PluginModal => match app.plugin_modal_text() {
            Some(t) => t.to_owned(),
            None => nothing(),
        },
        Mode::GlobalConfig => opt_text(&app.config_editing),
        _ => nothing(),
    }
}

fn color_of_bar(mode: &Mode, c: &Palette) -> (r: Color)
    ensures
        r == bar_color(*mode, *c),
{
    match mode {
        Mode::Normal => c.outline_variant,
        Mode::Command | Mode::GlobalConfig | Mode::AssignRange => c.secondary,
        Mode::ConfirmDelete { .. } | Mode::ConfirmDeleteSheet { .. } | Mode::ConfirmPurge => c.error,
        _ => c.primary,
    }
}

fn cursor_in_bar(mode: &Mode) -> (r: bool)
    ensures
        r == bar_cursor(*mode),
{
    match mode {
        Mode::AddGoal { .. }
        | Mode::EditTitle { .. }
        | Mode::EditDescription { .. }
        | Mode::EditDue { .. }
        | Mode::EditReminder { .. }
        | Mode::EditRepeat { .. }
        | Mode::PluginManager { .. }
        | Mode::AddSheet => true,
        _ => false,
    }
}

/// The input bar.
pub fn render_input_bar(app: &App) -> (r: Line)
    ensures
        r@ == input_bar(*app),
{
    let c = &app.theme.colors;
    let mut line = Line::new();
    if app.leader_pending {
        let text = concat3(" LEADER (", app.keybinds.leader.label().as_str(), ") ");
        line = line.put(text.as_str(), badge(c.on_primary, c.primary));
    } else {
        line = line.raw(nothing().as_str());
    }
    line = line.put(label_of_bar(app).as_str(), ink(color_of_bar(&app.mode, c))).put(
        text_of_bar(app).as_str(),
        ink(c.on_background),
    );
    if cursor_in_bar(&app.mode) {
        line.put("│", ink(c.on_surface_variant))
    } else {
        line.raw(nothing().as_str())
    }
}

// ---------- hint bar ----------

/// The label of a binding that may be missing.
pub open spec fn opt_label(b: Option<KeyBinding>) -> Seq<char> {
    match b {
        Some(k) => k.label_spec(),
        None => "unbound"@,
    }
}

fn label_or_unbound(b: &Option<KeyBinding>) -> (r: String)
    ensures
        r@ == opt_label(*b),
{
    match b {
        Some(k) => k.label(),
        None => "unbound".to_string(),
    }
}

/// The keys that the goal list hints at.
pub open spec fn normal_hint(app: App) -> Seq<char> {
    let k = app.keybinds;
    if app.leader_pending {
        "leader active — "@ + k.new_goal.label_spec() + " new goal (subgoal if expanded) · "@
            + k.show_details.label_spec() + " details/subgoals · "@ + k.help.label_spec()
            + " help · Esc cancel"@
    } else {
        "leader · leader+"@ + k.new_goal.label_spec() + " new · leader+"@
            + k.show_details.label_spec() + " details · leader+"@ + k.help.label_spec()
            + " help · "@ + opt_label(k.edit_due) + " due · "@ + opt_label(k.edit_reminder)
            + " remind · "@ + opt_label(k.edit_repeat) + " repeat"@
    }
}

/// The keys that a mode hints at.
pub open spec fn hint(app: App) -> Seq<char> {
    match app.mode {
        Mode::Normal => normal_hint(app),
        Mode::AddGoal { .. } | Mode::EditTitle { .. } | Mode::EditDescription { .. } => "Enter to save · Esc to cancel"@,
        Mode::EditDue { .. } => "Enter to save due date (empty to clear) · Esc to cancel"@,
        Mode::EditReminder { .. } => "Enter to save reminder (empty to clear) · Esc to cancel"@,
        Mode::EditRepeat { .. } => "Enter to save (none/daily/weekly/monthly/yearly) · Esc to cancel"@,
        Mode::ConfirmDelete { .. } | Mode::ConfirmDeleteSheet { .. } => "y to confirm · n/Esc to cancel"@,
        Mode::ConfirmPurge => "y to purge · n/Esc to cancel"@,
        Mode::Help => if app.help_tabs@.len() > 1 {
            "Esc/q to close · ←/→ tab · j/k scroll"@
        } else {
            "Esc/q to close · j/k scroll"@
        },
        Mode::PluginManager { pane } => if pane is Install {
            "GitHub link / owner/repo / terms · Enter install · Esc back"@
        } else {
            "i install · ↑↓ select · Enter activate · u update · s service · d uninstall · ? help · Esc close"@
        },
        Mode::PluginHelp | Mode::Stats => "Esc/q to close"@,
        Mode::PluginConfigure { .. } => "↑↓ field · Enter edit · Enter save · Esc back"@,
        Mode::AgentPicker { .. } => "↑↓ model · Enter run · Esc close"@,
        Mode::MovePicker { .. } => "↑↓ parent · Enter move · Esc cancel"@,
        Mode::SheetPicker => "↑↓ sheet · Enter select · n new · d delete · Esc close"@,
        Mode::AddSheet => "Enter create · Esc cancel"@,
        Mode::AgentRunning { .. } => "streaming… Esc hides (run continues)"@,
        Mode::PluginPanel => "plugin panel — keys go to the plugin"@,
        Mode::Command => "↑↓ select · type to filter · Enter run · Esc close"@,
        Mode::AssignRange => "Enter assign (e.g. @1-6 or @id-id) · Esc cancel"@,
        Mode::GlobalConfig => if app.config_editing is Some {
            "Enter save · Esc cancel edit"@
        } else if app.config_selected < crate::handlers::host_fields(app) {
            "Enter edit · ↑↓ row · Esc close"@
        } else {
            "Enter open plugin settings · ↑↓ row · Esc close"@
        },
        Mode::FullResult { .. } => "j/k scroll · Esc/q close"@,
        Mode::PluginModal => match app.plugin_modal {
            Some(m) => match m.kind {
                PluginModalKind::Input { .. } => "type · Enter submit · Esc cancel"@,
                PluginModalKind::Confirm => "y confirm · n/Esc cancel"@,
                PluginModalKind::Pick { .. } => "↑↓ select · Enter pick · Esc cancel"@,
                PluginModalKind::MultiSelect { .. } => "↑↓ move · space toggle · Enter submit · Esc cancel"@,
                PluginModalKind::TextEditor { .. } => "Enter submit · Shift+Enter newline · Esc cancel"@,
            },
            None => Seq::empty(),
        },
    }
}

fn hint_of_list(app: &App) -> (r: String)
    ensures
        r@ == normal_hint(*app),
{
    let k = &app.keybinds;
    let n = k.new_goal.label();
    let d = k.show_details.label();
    let h = k.help.label();
    if app.leader_pending {
        let a = concat3("leader active — ", n.as_str(), " new goal (subgoal if expanded) · ");
        let b = concat3(a.as_str(), d.as_str(), " details/subgoals · ");
        return concat3(b.as_str(), h.as_str(), " help · Esc cancel");
    }
    let a = concat3("leader · leader+", n.as_str(), " new · leader+");
    let b = concat3(a.as_str(), d.as_str(), " details · leader+");
    let e = concat3(b.as_str(), h.as_str(), " help · ");
    let f = concat3(e.as_str(), label_or_unbound(&k.edit_due).as_str(), " due · ");
    let g = concat3(f.as_str(), label_or_unbound(&k.edit_reminder).as_str(), " remind · ");
    concat3(g.as_str(), label_or_unbound(&k.edit_repeat).as_str(), " repeat")
}

#[verifier::rlimit(60)]
fn hint_of(app: &App) -> (r: String)
    ensures
        r@ == hint(*app),
{
    let text = match &app.mode {
        Mode::Normal => {
            return hint_of_list(app);
        },
        Mode::AddGoal { .. } | Mode::EditTitle { .. } | Mode::EditDescription { .. } => "Enter to save · Esc to cancel",
        Mode::EditDue { .. } => "Enter to save due date (empty to clear) · Esc to cancel",
        Mode::EditReminder { .. } => "Enter to save reminder (empty to clear) · Esc to cancel",
        Mode::EditRepeat { .. } => "Enter to save (none/daily/weekly/monthly/yearly) · Esc to cancel",
        Mode::ConfirmDelete { .. } | Mode::ConfirmDeleteSheet { .. } => "y to confirm · n/Esc to cancel",
        Mode::ConfirmPurge => "y to purge · n/Esc to cancel",
        Mode::Help => {
            if app.help_tabs.len() > 1 {
                "Esc/q to close · ←/→ tab · j/k scroll"
            } else {
                "Esc/q to close · j/k scroll"
            }
        },
        Mode::PluginManager { pane } => match pane {
            PluginPane::Install => "GitHub link / owner/repo / terms · Enter install · Esc back",
            PluginPane::List => "i install · ↑↓ select · Enter activate · u update · s service · d uninstall · ? help · Esc close",
        },
        Mode::PluginHelp | Mode::Stats => "Esc/q to close",
        Mode::PluginConfigure { .. } => "↑↓ field · Enter edit · Enter save · Esc back",
        Mode::AgentPicker { .. } => "↑↓ model · Enter run · Esc close",
        Mode::MovePicker { .. } => "↑↓ parent · Enter move · Esc cancel",
        Mode::SheetPicker => "↑↓ sheet · Enter select · n new · d delete · Esc close",
        Mode::AddSheet => "Enter create · Esc cancel",
        Mode::AgentRunning { .. } => "streaming… Esc hides (run continues)",
        Mode::PluginPanel => "plugin panel — keys go to the plugin",
        Mode::Command => "↑↓ select · type to filter · Enter run · Esc close",
        Mode::AssignRange => "Enter assign (e.g. @1-6 or @id-id) · Esc cancel",
        Mode::GlobalConfig => {
            let fields: usize = match &app.global_spec {
                Some(s) => s.fields.len(),
                None => 0,
            };
            if app.config_editing.is_some() {
                "Enter save · Esc cancel edit"
            } else if app.config_selected < fields {
                "Enter edit · ↑↓ row · Esc close"
            } else {
                "Enter open plugin settings · ↑↓ row · Esc close"
            }
        },
        Mode::FullResult { .. } => "j/k scroll · Esc/q close",
        Mode::PluginModal => match &app.plugin_modal {
            Some(m) => match &m.kind {
                PluginModalKind::Input { .. } => "type · Enter submit · Esc cancel",
                PluginModalKind::Confirm => "y confirm · n/Esc cancel",
                PluginModalKind::Pick { .. } => "↑↓ select · Enter pick · Esc cancel",
                PluginModalKind::MultiSelect { .. } => "↑↓ move · space toggle · Enter submit · Esc cancel",
                PluginModalKind::TextEditor { .. } => "Enter submit · Shift+Enter newline · Esc cancel",
            },
            None => {
                return nothing();
            },
        },
    };
    text.to_owned()
}

/// The hint bar.
pub fn render_hint_bar(app: &App) -> (r: Line)
    ensures
        r@ == one(" "@ + hint(*app), bold(app.theme.colors.on_surface)),
{
    Line::new().put(
        concat(" ", hint_of(app).as_str()).as_str(),
        bold(app.theme.colors.on_surface),
    )
}

/// The buffer that takes the place of the goal list: the active one, while it is
/// there.
pub open spec fn buffer_shown(app: App) -> Option<Seq<char>> {
    match app.buffer_manager.active {
        Some(id) => if app.buffer_manager.buffers@.contains_key(id@) {
            Some(id@)
        } else {
            None
        },
        None => None,
    }
}

/// The buffer that takes the place of the goal list: the active one, while it is
/// there.
pub fn shown_buffer(app: &App) -> (r: Option<String>)
    ensures
        opt(r) == buffer_shown(*app),
{
    match &app.buffer_manager.active {
        Some(id) => match app.buffer_manager.buffers.get(id.as_str()) {
            Some(_) => Some(id.clone()),
            None => None,
        },
        None => None,
    }
}

} // verus!
