//! What the popups show: their title, their share of the screen in percent, the color of
//! their border, and their lines.

use crate::app::App;
use crate::goals::within;
use crate::text::{
    concat, from_chars, opt_or_empty, opt_text, pad_right, padded_right, split, split_chars,
    to_chars, truncated, views,
};
use crate::theme::{Color, Palette};
use crate::types::{PluginCommand, PluginModalKind, UiRequest, Widget};
use crate::ui::truncate_str;
use crate::view::{
    badge, blank, bold, bold_if, concat3, concat4, filled, heavy, ink, no_lines, one, span, Line,
    Page, Rect, SpanView, Style,
};
use vstd::prelude::*;

verus! {

/// A popup: its title, its share of the screen in percent, the color of its border, and
/// its lines.
#[derive(Debug)]
pub struct Popup {
    pub title: String,
    pub percent_x: u16,
    pub percent_y: u16,
    pub border: Color,
    pub page: Page,
}

/// The mark of the selected row.
pub open spec fn cursor_mark(selected: bool) -> Seq<char> {
    if selected {
        "▶ "@
    } else {
        "  "@
    }
}

/// The mark of the selected row.
pub fn mark(selected: bool) -> (r: &'static str)
    ensures
        r@ == cursor_mark(selected),
{
    if selected {
        "▶ "
    } else {
        "  "
    }
}

/// A cell of a table: a text of at most `width - 1` characters and spaces up to
/// `width`.
pub open spec fn cell(text: Seq<char>, width: nat) -> Seq<char> {
    padded_right(truncated(text, (width - 1) as nat), width)
}

/// A cell of a table.
pub fn cell_text(text: &str, width: usize) -> (r: String)
    requires
        width > 0,
    ensures
        r@ == cell(text@, width as nat),
{
    pad_right(truncate_str(text, width - 1).as_str(), width)
}

/// The frames of the spinner.
pub open spec fn spinner_frame(i: int) -> Seq<char> {
    if i == 0 {
        "⠋"@
    } else if i == 1 {
        "⠙"@
    } else if i == 2 {
        "⠹"@
    } else if i == 3 {
        "⠸"@
    } else if i == 4 {
        "⠼"@
    } else {
        "⠴"@
    }
}

/// The frame of the spinner at a time in milliseconds: a new one each 200.
pub fn spinner(millis: u64) -> (r: &'static str)
    ensures
        r@ == spinner_frame((millis / 200) as int % 6),
{
    let i: u64 = millis / 200 % 6;
    if i == 0 {
        "⠋"
    } else if i == 1 {
        "⠙"
    } else if i == 2 {
        "⠹"
    } else if i == 3 {
        "⠸"
    } else if i == 4 {
        "⠼"
    } else {
        "⠴"
    }
}

// ---------- command line ----------

/// The first of the eight commands that are shown: the selected one is among
/// them, in the middle where there are enough on both sides.
pub open spec fn window_start(len: int, selected: int) -> int {
    if len <= 8 || selected < 4 {
        0
    } else if selected + 4 >= len {
        len - 8
    } else {
        selected - 4
    }
}

/// The selected command is always among those that are shown.
pub proof fn law_selection_is_visible(len: int, selected: int)
    requires
        0 <= selected < len,
    ensures
        0 <= window_start(len, selected) <= selected < window_start(len, selected) + 8,
        len > 8 ==> window_start(len, selected) + 8 <= len,
{
}

/// The line of a command.
pub open spec fn command_line(cmd: PluginCommand, selected: bool, c: Palette) -> Seq<SpanView> {
    blank().push(
        span(
            cursor_mark(selected) + cmd.name@,
            if selected {
                badge(c.on_primary, c.primary)
            } else {
                ink(c.primary)
            },
        ),
    ).push(
        span(
            "  — "@ + cmd.desc@,
            if selected {
                filled(c.on_primary, c.primary)
            } else {
                ink(c.outline_variant)
            },
        ),
    )
}

/// The lines of some commands from `start` up to `end`.
pub open spec fn command_lines(
    s: Seq<PluginCommand>,
    selected: int,
    start: int,
    end: int,
    c: Palette,
) -> Seq<Seq<SpanView>> {
    Seq::new((end - start) as nat, |i: int| command_line(s[start + i], start + i == selected, c))
}

/// The last of the commands that are shown, and one more.
pub open spec fn window_end(len: int, selected: int) -> int {
    if len <= 8 {
        len
    } else {
        window_start(len, selected) + 8
    }
}

/// The commands that match, with the selected one in view; nothing where none
/// matches.
pub fn render_command_matches(app: &App) -> (r: Option<Popup>)
    ensures
        ({
            let list = app.command_list();
            let len = list.len() as int;
            let sel = within(app.command_selected as int, len);
            if len == 0 {
                r is None
            } else {
                r is Some && r->0.title@ == " Commands "@ && r->0.percent_x == 60
                    && r->0.percent_y == 30 && r->0.border == app.theme.colors.outline
                    && r->0.page@ == command_lines(
                    list,
                    sel,
                    window_start(len, sel),
                    window_end(len, sel),
                    app.theme.colors,
                )
            }
        }),
{
    let c = &app.theme.colors;
    let list = app.command_matches();
    let len: usize = list.len();
    if len == 0 {
        return None;
    }
    let sel: usize = if app.command_selected < len {
        app.command_selected
    } else {
        len - 1
    };
    let start: usize = if len <= 8 || sel < 4 {
        0
    } else if sel >= len - 4 {
        len - 8
    } else {
        sel - 4
    };
    let end: usize = if len <= 8 {
        len
    } else {
        start + 8
    };
    let mut page = Page::new();
    let mut i: usize = start;
    while i < end
        invariant
            start <= i <= end <= len == list@.len(),
            c == &app.theme.colors,
            page@ =~= command_lines(list@, sel as int, start as int, i as int, *c),
        decreases end - i,
    {
        let on = i == sel;
        let name_style = if on {
            badge(c.on_primary, c.primary)
        } else {
            ink(c.primary)
        };
        let desc_style = if on {
            filled(c.on_primary, c.primary)
        } else {
            ink(c.outline_variant)
        };
        let cmd = &list[i];
        let line = Line::new().put(concat(mark(on), cmd.name.as_str()).as_str(), name_style).put(
            concat("  — ", cmd.desc.as_str()).as_str(),
            desc_style,
        );
        page = page.line(line);
        i = i + 1;
    }
    Some(
        Popup {
            title: " Commands ".to_string(),
            percent_x: 60,
            percent_y: 30,
            border: c.outline,
            page,
        },
    )
}

/// The place of the list of matching commands: as wide as its popup, above the input
/// bar, and as high as its lines and its border.
pub fn command_rect(popup: Rect, rows: u16) -> (r: Rect)
    requires
        rows + 2 <= u16::MAX,
    ensures
        r.x == popup.x,
        r.y == (if popup.y >= 20 {
            popup.y - 20
        } else {
            0
        }),
        r.width == popup.width,
        r.height == rows + 2,
{
    let y: u16 = if popup.y >= 20 {
        popup.y - 20
    } else {
        0
    };
    Rect { x: popup.x, y, width: popup.width, height: rows + 2 }
}

// ---------- widgets of plugins ----------

/// The lines of a list widget.
pub open spec fn list_lines(items: Seq<String>, highlight: Option<usize>, c: Palette) -> Seq<
    Seq<SpanView>,
> {
    Seq::new(
        items.len(),
        |i: int|
            one(
                "  "@ + items[i]@,
                if highlight == Some(i as usize) {
                    filled(c.on_primary, c.primary)
                } else {
                    ink(c.on_background)
                },
            ),
    )
}

/// The most lines that some columns have.
pub open spec fn tallest(cols: Seq<Seq<Seq<SpanView>>>) -> nat
    decreases cols.len(),
{
    if cols.len() == 0 {
        0
    } else {
        let before = tallest(cols.drop_last());
        if cols.last().len() > before {
            cols.last().len()
        } else {
            before
        }
    }
}

/// The spans of a row of some columns, with bars between them.
pub open spec fn across(cols: Seq<Seq<Seq<SpanView>>>, i: int, c: Palette) -> Seq<SpanView>
    decreases cols.len(),
{
    if cols.len() == 0 {
        blank()
    } else {
        let before = across(cols.drop_last(), i, c);
        let barred = if cols.len() > 1 {
            before.push(span(" │ "@, ink(c.outline)))
        } else {
            before
        };
        if i < cols.last().len() {
            barred + cols.last()[i]
        } else {
            barred
        }
    }
}

/// The rows of some columns up to `n`; rows without spans are left out.
pub open spec fn columns(cols: Seq<Seq<Seq<SpanView>>>, n: nat, c: Palette) -> Seq<Seq<SpanView>>
    decreases n,
{
    if n == 0 {
        no_lines()
    } else {
        let before = columns(cols, (n - 1) as nat, c);
        let row = across(cols, n - 1, c);
        if row.len() > 0 {
            before.push(row)
        } else {
            before
        }
    }
}

/// The lines of a widget: a text in its role, a list with its highlight, a column
/// below each other, a row side by side.
pub open spec fn widget_lines(w: Widget, c: Palette) -> Seq<Seq<SpanView>>
    decreases w, 0int,
{
    match w {
        Widget::Text { content, fg, bold: heavy } => no_lines().push(
            one(content@, bold_if(role_color(fg, c), heavy)),
        ),
        Widget::List { items, highlight } => list_lines(items@, highlight, c),
        Widget::Column { children } => stacked(children, children@.len() as int, c),
        Widget::Row { children } => {
            let cols = side_by_side(children, children@.len() as int, c);
            columns(cols, tallest(cols), c)
        },
    }
}

/// The color of a role, or the one of the foreground.
pub open spec fn role_color(role: Option<String>, c: Palette) -> crate::theme::Color {
    match role {
        Some(r) => crate::theme::lookup(c, r@),
        None => c.on_background,
    }
}

/// The lines of the first `n` widgets below each other.
pub open spec fn stacked(s: Vec<Widget>, n: int, c: Palette) -> Seq<Seq<SpanView>>
    decreases s, n,
{
    if n <= 0 || n > s@.len() {
        no_lines()
    } else {
        stacked(s, n - 1, c) + widget_lines(s@[n - 1], c)
    }
}

/// The lines of each of the first `n` widgets.
pub open spec fn side_by_side(s: Vec<Widget>, n: int, c: Palette) -> Seq<Seq<Seq<SpanView>>>
    decreases s, n,
{
    if n <= 0 || n > s@.len() {
        Seq::empty()
    } else {
        side_by_side(s, n - 1, c).push(widget_lines(s@[n - 1], c))
    }
}

fn color_of_role(role: &Option<String>, c: &Palette) -> (r: crate::theme::Color)
    ensures
        r == role_color(*role, *c),
{
    match role {
        Some(r) => match c.get(r.as_str()) {
            Some(color) => color,
            None => c.on_background,
        },
        None => c.on_background,
    }
}

fn render_list(items: &Vec<String>, highlight: Option<usize>, c: &Palette) -> (r: Page)
    ensures
        r@ == list_lines(items@, highlight, *c),
{
    let mut page = Page::new();
    for i in 0..items.len()
        invariant
            page@ =~= list_lines(items@.take(i as int), highlight, *c),
    {
        let style = if highlight == Some(i) {
            filled(c.on_primary, c.primary)
        } else {
            ink(c.on_background)
        };
        page = page.one(concat("  ", items[i].as_str()).as_str(), style);
    }
    assert(items@.take(items@.len() as int) =~= items@);
    page
}

/// What some pages show.
pub open spec fn page_views(s: Seq<Page>) -> Seq<Seq<Seq<SpanView>>> {
    s.map_values(|p: Page| p@)
}

fn tallest_of(cols: &Vec<Page>) -> (r: usize)
    ensures
        r == tallest(page_views(cols@)),
{
    let ghost all = page_views(cols@);
    let mut n: usize = 0;
    assert(all.take(0) =~= Seq::empty());
    for i in 0..cols.len()
        invariant
            all == page_views(cols@),
            n == tallest(all.take(i as int)),
    {
        assert(all.take(i + 1).drop_last() =~= all.take(i as int));
        assert(all.take(i + 1).last() == cols@[i as int]@);
        assert(cols@[i as int]@.len() == cols@[i as int].lines@.len());
        if cols[i].lines.len() > n {
            n = cols[i].lines.len();
        }
    }
    assert(all.take(all.len() as int) =~= all);
    n
}

fn row_across(cols: &Vec<Page>, k: usize, c: &Palette) -> (r: Line)
    ensures
        r@ == across(page_views(cols@), k as int, *c),
{
    let ghost all = page_views(cols@);
    let mut line = Line::new();
    assert(all.take(0) =~= Seq::empty());
    for i in 0..cols.len()
        invariant
            all == page_views(cols@),
            line@ == across(all.take(i as int), k as int, *c),
    {
        assert(all.take(i + 1).drop_last() =~= all.take(i as int));
        assert(all.take(i + 1).last() == cols@[i as int]@);
        assert(cols@[i as int]@.len() == cols@[i as int].lines@.len());
        if i > 0 {
            line = line.put(" │ ", ink(c.outline));
        }
        if k < cols[i].lines.len() {
            assert(cols@[i as int]@[k as int] == cols@[i as int].lines@[k as int]@);
            line = line.append(&cols[i].lines[k]);
        }
    }
    assert(all.take(all.len() as int) =~= all);
    line
}

fn render_columns(cols: &Vec<Page>, c: &Palette) -> (r: Page)
    ensures
        r@ == columns(page_views(cols@), tallest(page_views(cols@)), *c),
{
    let n: usize = tallest_of(cols);
    let mut page = Page::new();
    for k in 0..n
        invariant
            page@ == columns(page_views(cols@), k as nat, *c),
    {
        let line = row_across(cols, k, c);
        assert(line@.len() == line.spans@.len());
        if line.spans.len() > 0 {
            page = page.line(line);
        }
    }
    page
}

/// The lines of a widget.
pub fn flatten(w: &Widget, c: &Palette) -> (r: Page)
    ensures
        r@ == widget_lines(*w, *c),
    decreases *w, 0int,
{
    match w {
        Widget::Text { content, fg, bold: heavy } => Page::new().one(
            content.as_str(),
            bold_if(color_of_role(fg, c), *heavy),
        ),
        Widget::List { items, highlight } => render_list(items, *highlight, c),
        Widget::Column { children } => stack_widgets(children, children.len(), c),
        Widget::Row { children } => {
            let cols = column_widgets(children, children.len(), c);
            render_columns(&cols, c)
        },
    }
}

fn stack_widgets(s: &Vec<Widget>, n: usize, c: &Palette) -> (r: Page)
    requires
        n <= s@.len(),
    ensures
        r@ == stacked(*s, n as int, *c),
    decreases *s, n,
{
    if n == 0 {
        return Page::new();
    }
    let before = stack_widgets(s, n - 1, c);
    before.append(flatten(&s[n - 1], c))
}

fn column_widgets(s: &Vec<Widget>, n: usize, c: &Palette) -> (r: Vec<Page>)
    requires
        n <= s@.len(),
    ensures
        page_views(r@) == side_by_side(*s, n as int, *c),
    decreases *s, n,
{
    if n == 0 {
        let none: Vec<Page> = Vec::new();
        assert(page_views(none@) =~= Seq::empty());
        return none;
    }
    let mut cols = column_widgets(s, n - 1, c);
    let ghost before = page_views(cols@);
    let page = flatten(&s[n - 1], c);
    let ghost v = page@;
    cols.push(page);
    assert(page_views(cols@) =~= before.push(v));
    cols
}

/// The panel of a plugin; nothing where none is open.
pub fn render_plugin_panel(app: &App, drawn: &Widget) -> (r: Option<Popup>)
    ensures
        match app.plugin_panel {
            Some(title) => r is Some && r->0.title@ == " "@ + title@ + " "@ && r->0.percent_x == 60
                && r->0.percent_y == 70 && r->0.border == app.theme.colors.primary && r->0.page@
                == widget_lines(*drawn, app.theme.colors),
            None => r is None,
        },
{
    match &app.plugin_panel {
        Some(title) => Some(
            Popup {
                title: concat3(" ", title.as_str(), " "),
                percent_x: 60,
                percent_y: 70,
                border: app.theme.colors.primary,
                page: flatten(drawn, &app.theme.colors),
            },
        ),
        None => None,
    }
}

/// The lines of a buffer.
pub open spec fn buffer_lines(drawn: Widget, c: Palette) -> Seq<Seq<SpanView>> {
    if widget_lines(drawn, c).len() == 0 {
        no_lines().push(one("  (plugin buffer — no content)"@, ink(c.outline_variant)))
    } else {
        widget_lines(drawn, c)
    }
}

/// The buffer of a plugin, with a note where it draws nothing.
pub fn render_plugin_buffer(drawn: &Widget, c: &Palette) -> (r: Page)
    ensures
        r@ == buffer_lines(*drawn, *c),
{
    let page = flatten(drawn, c);
    assert(page@.len() == page.lines@.len());
    if page.lines.len() == 0 {
        return Page::new().one("  (plugin buffer — no content)", ink(c.outline_variant));
    }
    page
}

// ---------- dialogs of plugins ----------

/// The lines of a choice.
pub open spec fn pick_lines(items: Seq<String>, selected: int, c: Palette) -> Seq<Seq<SpanView>> {
    Seq::new(
        items.len(),
        |i: int|
            one(
                "  "@ + (if i == selected {
                    "▸ "@
                } else {
                    "  "@
                }) + items[i]@,
                if i == selected {
                    filled(c.on_primary, c.primary)
                } else {
                    ink(c.on_background)
                },
            ),
    )
}

/// The lines of a multiple choice.
pub open spec fn multi_lines(items: Seq<String>, on: Seq<bool>, cursor: int, c: Palette) -> Seq<
    Seq<SpanView>,
> {
    Seq::new(
        if items.len() <= on.len() {
            items.len()
        } else {
            on.len()
        },
        |i: int|
            one(
                "  "@ + (if on[i] {
                    "[x]"@
                } else {
                    "[ ]"@
                }) + " "@ + items[i]@,
                if i == cursor {
                    filled(c.on_primary, c.primary)
                } else if on[i] {
                    ink(c.success)
                } else {
                    ink(c.on_background)
                },
            ),
    )
}

/// A line for each of some texts.
pub open spec fn text_lines(parts: Seq<Seq<char>>, style: Style) -> Seq<Seq<SpanView>> {
    Seq::new(parts.len(), |i: int| one(parts[i], style))
}

/// The text of a dialog, or its placeholder where it is empty.
pub open spec fn shown_text(buffer: Seq<char>, placeholder: Option<String>) -> Seq<char> {
    if buffer.len() == 0 {
        opt_or_empty(placeholder)
    } else {
        buffer
    }
}

/// The style of the text of a dialog.
pub open spec fn shown_style(buffer: Seq<char>, c: Palette) -> Style {
    if buffer.len() == 0 {
        ink(c.outline_variant)
    } else {
        ink(c.on_background)
    }
}

/// The lines of a dialog.
pub open spec fn modal_lines(kind: PluginModalKind, request: UiRequest, c: Palette) -> Seq<
    Seq<SpanView>,
> {
    match (kind, request) {
        (PluginModalKind::Input { buffer, placeholder }, UiRequest::Input { .. }) => no_lines().push(
            blank(),
        ).push(
            blank().push(span("> "@, ink(c.primary))).push(
                span(shown_text(buffer@, placeholder), shown_style(buffer@, c)),
            ).push(span("▏"@, ink(c.primary))),
        ),
        (PluginModalKind::Confirm, UiRequest::Confirm { message, .. }) => no_lines().push(
            blank(),
        ).push(one("  "@ + message@, ink(c.on_background))),
        (PluginModalKind::Pick { selected }, UiRequest::Pick { items, .. }) => pick_lines(
            items@,
            selected as int,
            c,
        ),
        (
            PluginModalKind::MultiSelect { selected, cursor },
            UiRequest::MultiSelect { items, .. },
        ) => multi_lines(items@, selected@, cursor as int, c),
        (PluginModalKind::TextEditor { buffer, placeholder }, UiRequest::Text { .. }) => no_lines().push(
            blank(),
        ) + text_lines(split(shown_text(buffer@, placeholder), '\n'), shown_style(buffer@, c)),
        _ => no_lines().push(blank()),
    }
}

/// The share of the screen that a dialog takes.
pub open spec fn modal_size(kind: PluginModalKind) -> (u16, u16) {
    match kind {
        PluginModalKind::Pick { .. } | PluginModalKind::MultiSelect { .. } => (45, 40),
        PluginModalKind::TextEditor { .. } => (60, 50),
        _ => (50, 22),
    }
}

fn render_pick(items: &Vec<String>, selected: usize, c: &Palette) -> (r: Page)
    ensures
        r@ == pick_lines(items@, selected as int, *c),
{
    let mut page = Page::new();
    for i in 0..items.len()
        invariant
            page@ =~= pick_lines(items@.take(i as int), selected as int, *c),
    {
        let (mark, style) = if i == selected {
            ("▸ ", filled(c.on_primary, c.primary))
        } else {
            ("  ", ink(c.on_background))
        };
        page = page.one(concat3("  ", mark, items[i].as_str()).as_str(), style);
    }
    assert(items@.take(items@.len() as int) =~= items@);
    page
}

fn render_multi(items: &Vec<String>, on: &Vec<bool>, cursor: usize, c: &Palette) -> (r: Page)
    ensures
        r@ == multi_lines(items@, on@, cursor as int, *c),
{
    let n: usize = if items.len() <= on.len() {
        items.len()
    } else {
        on.len()
    };
    let mut page = Page::new();
    for i in 0..n
        invariant
            n <= items@.len(),
            n <= on@.len(),
            page@ =~= multi_lines(items@.take(i as int), on@, cursor as int, *c),
    {
        let check = if on[i] {
            "[x]"
        } else {
            "[ ]"
        };
        let style = if i == cursor {
            filled(c.on_primary, c.primary)
        } else if on[i] {
            ink(c.success)
        } else {
            ink(c.on_background)
        };
        page = page.one(concat4("  ", check, " ", items[i].as_str()).as_str(), style);
    }
    assert(page@ =~= multi_lines(items@, on@, cursor as int, *c));
    page
}

fn put_text(page: Page, text: &str, style: Style) -> (r: Page)
    ensures
        r@ == page@ + text_lines(split(text@, '\n'), style),
{
    let chars = to_chars(text);
    let parts = split_chars(&chars, '\n');
    let ghost all = views(parts@);
    let ghost start = page@;
    let mut page = page;
    for i in 0..parts.len()
        invariant
            all == views(parts@),
            page@ =~= start + text_lines(all.take(i as int), style),
    {
        assert(all[i as int] == parts@[i as int]@);
        page = page.one(from_chars(&parts[i]).as_str(), style);
    }
    assert(all.take(all.len() as int) =~= all);
    page
}

fn text_or_placeholder(buffer: &String, placeholder: &Option<String>) -> (r: String)
    ensures
        r@ == shown_text(buffer@, *placeholder),
{
    if buffer.as_str().is_empty() {
        opt_text(placeholder)
    } else {
        buffer.clone()
    }
}

fn text_style(buffer: &String, c: &Palette) -> (r: Style)
    ensures
        r == shown_style(buffer@, *c),
{
    if buffer.as_str().is_empty() {
        ink(c.outline_variant)
    } else {
        ink(c.on_background)
    }
}

/// The lines of a dialog.
pub fn render_dialog(kind: &PluginModalKind, request: &UiRequest, c: &Palette) -> (r: Page)
    ensures
        r@ == modal_lines(*kind, *request, *c),
{
    match (kind, request) {
        (PluginModalKind::Input { buffer, placeholder }, UiRequest::Input { .. }) => {
            let shown = text_or_placeholder(buffer, placeholder);
            let line = Line::new().put("> ", ink(c.primary)).put(
                shown.as_str(),
                text_style(buffer, c),
            ).put("▏", ink(c.primary));
            Page::new().blank().line(line)
        },
        (PluginModalKind::Confirm, UiRequest::Confirm { message, .. }) => Page::new().blank().one(
            concat("  ", message.as_str()).as_str(),
            ink(c.on_background),
        ),
        (PluginModalKind::Pick { selected }, UiRequest::Pick { items, .. }) => render_pick(
            items,
            *selected,
            c,
        ),
        (
            PluginModalKind::MultiSelect { selected, cursor },
            UiRequest::MultiSelect { items, .. },
        ) => render_multi(items, selected, *cursor, c),
        (PluginModalKind::TextEditor { buffer, placeholder }, UiRequest::Text { .. }) => {
            let shown = text_or_placeholder(buffer, placeholder);
            put_text(Page::new().blank(), shown.as_str(), text_style(buffer, c))
        },
        _ => Page::new().blank(),
    }
}

/// The dialog of a plugin; nothing where none is open.
pub fn render_plugin_modal(app: &App) -> (r: Option<Popup>)
    ensures
        match app.plugin_modal {
            Some(m) => r is Some && r->0.title@ == " "@ + m.request.title_spec() + " "@ && (
                r->0.percent_x,
                r->0.percent_y,
            ) == modal_size(m.kind) && r->0.border == app.theme.colors.primary && r->0.page@ == modal_lines(
                m.kind,
                m.request,
                app.theme.colors,
            ),
            None => r is None,
        },
{
    match &app.plugin_modal {
        Some(m) => {
            let (percent_x, percent_y): (u16, u16) = match &m.kind {
                PluginModalKind::Pick { .. } | PluginModalKind::MultiSelect { .. } => (45, 40),
                PluginModalKind::TextEditor { .. } => (60, 50),
                _ => (50, 22),
            };
            Some(
                Popup {
                    title: concat3(" ", m.request.title(), " "),
                    percent_x,
                    percent_y,
                    border: app.theme.colors.primary,
                    page: render_dialog(&m.kind, &m.request, &app.theme.colors),
                },
            )
        },
        None => None,
    }
}

} // verus!
