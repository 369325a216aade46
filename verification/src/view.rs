//! Styled text as the screen shows it: spans, lines and pages.

use crate::text::concat;
use crate::theme::Color;
use vstd::prelude::*;

verus! {

/// How a text is drawn.
#[derive(Clone, Copy, Debug, PartialEq, Eq, Structural)]
pub struct Style {
    pub fg: Option<Color>,
    pub bg: Option<Color>,
    pub bold: bool,
    pub italic: bool,
    pub crossed_out: bool,
}

/// Drawn as the surroundings are.
#[verifier::allow_in_spec]
pub fn unstyled() -> Style
    returns
        (Style { fg: None, bg: None, bold: false, italic: false, crossed_out: false }),
{
    Style { fg: None, bg: None, bold: false, italic: false, crossed_out: false }
}

/// Drawn in a color.
#[verifier::allow_in_spec]
pub fn ink(c: Color) -> Style
    returns
        (Style { fg: Some(c), bg: None, bold: false, italic: false, crossed_out: false }),
{
    Style { fg: Some(c), bg: None, bold: false, italic: false, crossed_out: false }
}

/// Drawn in a color, bold.
#[verifier::allow_in_spec]
pub fn bold(c: Color) -> Style
    returns
        (Style { fg: Some(c), bg: None, bold: true, italic: false, crossed_out: false }),
{
    Style { fg: Some(c), bg: None, bold: true, italic: false, crossed_out: false }
}

/// Drawn bold, in no color of its own.
#[verifier::allow_in_spec]
pub fn heavy() -> Style
    returns
        (Style { fg: None, bg: None, bold: true, italic: false, crossed_out: false }),
{
    Style { fg: None, bg: None, bold: true, italic: false, crossed_out: false }
}

/// Drawn in a color, slanted.
#[verifier::allow_in_spec]
pub fn slanted(c: Color) -> Style
    returns
        (Style { fg: Some(c), bg: None, bold: false, italic: true, crossed_out: false }),
{
    Style { fg: Some(c), bg: None, bold: false, italic: true, crossed_out: false }
}

/// Drawn in a color, crossed out.
#[verifier::allow_in_spec]
pub fn struck(c: Color) -> Style
    returns
        (Style { fg: Some(c), bg: None, bold: false, italic: false, crossed_out: true }),
{
    Style { fg: Some(c), bg: None, bold: false, italic: false, crossed_out: true }
}

/// Drawn in a color on another.
#[verifier::allow_in_spec]
pub fn filled(fg: Color, bg: Color) -> Style
    returns
        (Style { fg: Some(fg), bg: Some(bg), bold: false, italic: false, crossed_out: false }),
{
    Style { fg: Some(fg), bg: Some(bg), bold: false, italic: false, crossed_out: false }
}

/// Drawn in a color on another, bold.
#[verifier::allow_in_spec]
pub fn badge(fg: Color, bg: Color) -> Style
    returns
        (Style { fg: Some(fg), bg: Some(bg), bold: true, italic: false, crossed_out: false }),
{
    Style { fg: Some(fg), bg: Some(bg), bold: true, italic: false, crossed_out: false }
}

/// Bold where `on` is set.
#[verifier::allow_in_spec]
pub fn bold_if(c: Color, on: bool) -> Style
    returns
        (Style { fg: Some(c), bg: None, bold: on, italic: false, crossed_out: false }),
{
    Style { fg: Some(c), bg: None, bold: on, italic: false, crossed_out: false }
}

/// A text in one style.
#[derive(Debug)]
pub struct Span {
    pub text: String,
    pub style: Style,
}

/// What a span shows.
pub struct SpanView {
    pub text: Seq<char>,
    pub style: Style,
}

impl View for Span {
    type V = SpanView;

    open spec fn view(&self) -> SpanView {
        SpanView { text: self.text@, style: self.style }
    }
}

impl Clone for Span {
    fn clone(&self) -> (r: Span)
        ensures
            r == *self,
    {
        Span { text: self.text.clone(), style: self.style }
    }
}

/// A text in a style.
pub open spec fn span(text: Seq<char>, style: Style) -> SpanView {
    SpanView { text, style }
}

/// A text as its surroundings are drawn.
pub open spec fn raw(text: Seq<char>) -> SpanView {
    SpanView { text, style: unstyled() }
}

/// Spans side by side.
#[derive(Debug)]
pub struct Line {
    pub spans: Vec<Span>,
}

/// What some spans show.
pub open spec fn span_views(s: Seq<Span>) -> Seq<SpanView> {
    s.map_values(|x: Span| x@)
}

impl View for Line {
    type V = Seq<SpanView>;

    open spec fn view(&self) -> Seq<SpanView> {
        span_views(self.spans@)
    }
}

/// A line without spans.
pub open spec fn blank() -> Seq<SpanView> {
    Seq::empty()
}

/// A line of one span.
pub open spec fn one(text: Seq<char>, style: Style) -> Seq<SpanView> {
    blank().push(span(text, style))
}

/// A line as its surroundings are drawn.
pub open spec fn plain(text: Seq<char>) -> Seq<SpanView> {
    blank().push(raw(text))
}

impl Line {
    /// A line without spans.
    pub fn new() -> (r: Line)
        ensures
            r@ == blank(),
    {
        let spans: Vec<Span> = Vec::new();
        assert(span_views(spans@) =~= blank());
        Line { spans }
    }

    /// The line with one more span.
    pub fn put(self, text: &str, style: Style) -> (r: Line)
        ensures
            r@ == self@.push(span(text@, style)),
    {
        let mut spans = self.spans;
        let ghost before = span_views(spans@);
        spans.push(Span { text: text.to_owned(), style });
        assert(span_views(spans@) =~= before.push(span(text@, style)));
        Line { spans }
    }

    /// The line with one more span, drawn as its surroundings are.
    pub fn raw(self, text: &str) -> (r: Line)
        ensures
            r@ == self@.push(raw(text@)),
    {
        self.put(text, unstyled())
    }

    /// The line with the spans of another behind it.
    pub fn append(self, other: &Line) -> (r: Line)
        ensures
            r@ == self@ + other@,
    {
        let mut spans = self.spans;
        let ghost before = span_views(spans@);
        let n: usize = other.spans.len();
        let mut i: usize = 0;
        while i < n
            invariant
                i <= n == other.spans@.len(),
                span_views(spans@) =~= before + span_views(other.spans@).take(i as int),
            decreases n - i,
        {
            let ghost sofar = span_views(spans@);
            let s = other.spans[i].clone();
            spans.push(s);
            assert(span_views(spans@) =~= sofar.push(other.spans@[i as int]@));
            i = i + 1;
        }
        Line { spans }
    }
}

/// Lines one below the other.
#[derive(Debug)]
pub struct Page {
    pub lines: Vec<Line>,
}

/// What some lines show.
pub open spec fn line_views(s: Seq<Line>) -> Seq<Seq<SpanView>> {
    s.map_values(|x: Line| x@)
}

impl View for Page {
    type V = Seq<Seq<SpanView>>;

    open spec fn view(&self) -> Seq<Seq<SpanView>> {
        line_views(self.lines@)
    }
}

/// A page without lines.
pub open spec fn no_lines() -> Seq<Seq<SpanView>> {
    Seq::empty()
}

impl Page {
    /// A page without lines.
    pub fn new() -> (r: Page)
        ensures
            r@ == no_lines(),
    {
        let lines: Vec<Line> = Vec::new();
        assert(line_views(lines@) =~= no_lines());
        Page { lines }
    }

    /// The page with one more line.
    pub fn line(self, line: Line) -> (r: Page)
        ensures
            r@ == self@.push(line@),
    {
        let mut lines = self.lines;
        let ghost before = line_views(lines@);
        let ghost v = line@;
        lines.push(line);
        assert(line_views(lines@) =~= before.push(v));
        Page { lines }
    }

    /// The page with an empty line.
    pub fn blank(self) -> (r: Page)
        ensures
            r@ == self@.push(blank()),
    {
        self.line(Line::new())
    }

    /// The page with a line of one span.
    pub fn one(self, text: &str, style: Style) -> (r: Page)
        ensures
            r@ == self@.push(one(text@, style)),
    {
        self.line(Line::new().put(text, style))
    }

    /// The page with a line drawn as its surroundings are.
    pub fn plain(self, text: &str) -> (r: Page)
        ensures
            r@ == self@.push(plain(text@)),
    {
        self.line(Line::new().raw(text))
    }

    /// The page with the lines of another below it.
    pub fn append(self, other: Page) -> (r: Page)
        ensures
            r@ == self@ + other@,
    {
        let mut lines = self.lines;
        let ghost before = line_views(lines@);
        let ghost added = line_views(other.lines@);
        let mut more = other.lines;
        lines.append(&mut more);
        assert(line_views(lines@) =~= before + added);
        Page { lines }
    }
}

/// Three texts one behind the other.
pub fn concat3(a: &str, b: &str, c: &str) -> (r: String)
    ensures
        r@ == a@ + b@ + c@,
{
    concat(concat(a, b).as_str(), c)
}

/// Four texts one behind the other.
pub fn concat4(a: &str, b: &str, c: &str, d: &str) -> (r: String)
    ensures
        r@ == a@ + b@ + c@ + d@,
{
    concat(concat3(a, b, c).as_str(), d)
}

// ---------- places ----------

/// A rectangle of the screen.
#[derive(Clone, Copy, Debug, PartialEq, Eq, Structural)]
pub struct Rect {
    pub x: u16,
    pub y: u16,
    pub width: u16,
    pub height: u16,
}

/// A share of a length in percent.
pub open spec fn percent_of(len: int, percent: int) -> int {
    len * percent / 100
}

/// A rectangle in the middle of an area, with a share of its width and of its
/// height in percent.
pub fn centered_rect(percent_x: u16, percent_y: u16, area: Rect) -> (r: Rect)
    requires
        percent_x <= 100,
        percent_y <= 100,
        area.height * percent_y <= u16::MAX,
        area.width * percent_x <= u16::MAX,
        area.y + area.height <= u16::MAX,
        area.x + area.width <= u16::MAX,
    ensures
        r.width == percent_of(area.width as int, percent_x as int),
        r.height == percent_of(area.height as int, percent_y as int),
        r.x == area.x + (area.width - r.width) / 2,
        r.y == area.y + (area.height - r.height) / 2,
        area.x <= r.x && r.x + r.width <= area.x + area.width,
        area.y <= r.y && r.y + r.height <= area.y + area.height,
{
    assert(percent_of(area.height as int, percent_y as int) <= area.height) by (nonlinear_arith)
        requires
            percent_y <= 100,
    ;
    assert(percent_of(area.width as int, percent_x as int) <= area.width) by (nonlinear_arith)
        requires
            percent_x <= 100,
    ;
    let pop_h: u16 = area.height * percent_y / 100;
    let pop_w: u16 = area.width * percent_x / 100;
    let y: u16 = area.y + (area.height - pop_h) / 2;
    let x: u16 = area.x + (area.width - pop_w) / 2;
    Rect { x, y, width: pop_w, height: pop_h }
}

} // verus!
