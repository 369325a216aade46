//! Statistics of the goals, and the page that shows them.

use crate::app::App;
use crate::collections::StrSet;
use crate::popups::Popup;
use crate::schema::{AgentStatus, Goal, GoalSheet, GoalStatus};
use crate::text::{
    concat, decimal, from_chars, lemma_times_char, less, number, opt, opt_is, pad_left, pad_right, padded_left, padded_right, repeat,
    str_less, str_starts_with, starts_with, take, times, to_chars, truncated,
};
use crate::theme::{Color, Palette};
use crate::time::{is_time, rfc3339, to_rfc3339, utc_seconds, DAY};
use crate::ui::{overdue, truncate_str};
use crate::view::{
    blank, bold, concat3, concat4, ink, no_lines, one, span, Line, Page, SpanView,
};
use vstd::prelude::*;

verus! {

// ---------- counting ----------

/// The dates that goals are counted by: the time, its day, and the time in a week.
#[derive(Debug)]
pub struct Dates {
    pub now: String,
    pub today: String,
    pub week: String,
}

/// The first characters of a text, at most `n`.
pub open spec fn first_chars(s: Seq<char>, n: int) -> Seq<char> {
    if s.len() <= n {
        s
    } else {
        s.take(n)
    }
}

/// The dates of a time are the time itself, its day, which is the first ten characters
/// of it, and the time seven days later; none where that cannot be represented.
pub open spec fn dates_of(r: Option<Dates>, now: int) -> bool {
    match r {
        Some(d) => {
            &&& rfc3339(now) == Some(d.now@)
            &&& d.today@ == first_chars(d.now@, 10)
            &&& rfc3339(now + 7 * 86400) == Some(d.week@)
        },
        None => rfc3339(now) is None || rfc3339(now + 7 * 86400) is None,
    }
}

/// The dates of a time, in seconds since the epoch.
pub fn dates_at(now: i64) -> (r: Option<Dates>)
    requires
        is_time(now as int),
    ensures
        dates_of(r, now as int),
        is_time(now + 7 * 86400) ==> r is Some,
{
    let (text, week) = match (to_rfc3339(now), to_rfc3339(now + 7 * DAY)) {
        (Some(text), Some(week)) => (text, week),
        _ => {
            return None;
        },
    };
    let chars = to_chars(text.as_str());
    let n: usize = if chars.len() <= 10 {
        chars.len()
    } else {
        10
    };
    let day = take(&chars, n);
    assert(day@ =~= first_chars(text@, 10));
    Some(Dates { now: text, today: from_chars(&day), week })
}

/// The dates of the present time.
pub fn dates_now() -> (r: Option<Dates>)
    ensures
        exists|now: int| #[trigger] is_time(now) && dates_of(r, now),
{
    let now: i64 = utc_seconds();
    let r = dates_at(now);
    assert(is_time(now as int) && dates_of(r, now as int));
    r
}

/// What a goal can be counted by.
#[derive(Clone, Copy, Debug, PartialEq, Eq, Structural)]
pub enum Trait {
    Status(GoalStatus),
    Agent(AgentStatus),
    Overdue,
    DueToday,
    DueWeek,
    NoDue,
    Reminded,
    NoRepeat,
    Daily,
    Weekly,
    Monthly,
    Yearly,
}

/// Whether a goal has a trait.
pub open spec fn has(g: Goal, t: Trait, d: Dates) -> bool {
    match t {
        Trait::Status(s) => g.status == s,
        Trait::Agent(s) => g.agent_status == Some(s),
        Trait::Overdue => overdue(g, d.now@),
        Trait::DueToday => g.due_at is Some && starts_with(g.due_at->0@, d.today@),
        Trait::DueWeek => g.due_at is Some && !str_less(g.due_at->0@, d.now@) && str_less(
            g.due_at->0@,
            d.week@,
        ),
        Trait::NoDue => g.due_at is None,
        Trait::Reminded => g.remind_at is Some,
        Trait::NoRepeat => g.repeat_rule is None,
        Trait::Daily => opt(g.repeat_rule) == Some("daily"@),
        Trait::Weekly => opt(g.repeat_rule) == Some("weekly"@),
        Trait::Monthly => opt(g.repeat_rule) == Some("monthly"@),
        Trait::Yearly => opt(g.repeat_rule) == Some("yearly"@),
    }
}

fn has_trait(g: &Goal, t: Trait, d: &Dates) -> (r: bool)
    ensures
        r == has(*g, t, *d),
{
    match t {
        Trait::Status(s) => g.status == s,
        Trait::Agent(s) => match g.agent_status {
            Some(a) => a == s,
            None => false,
        },
        Trait::Overdue => match &g.due_at {
            Some(due) => less(due.as_str(), d.now.as_str()) && g.status != GoalStatus::Completed,
            None => false,
        },
        Trait::DueToday => match &g.due_at {
            Some(due) => str_starts_with(due.as_str(), d.today.as_str()),
            None => false,
        },
        Trait::DueWeek => match &g.due_at {
            Some(due) => !less(due.as_str(), d.now.as_str()) && less(due.as_str(), d.week.as_str()),
            None => false,
        },
        Trait::NoDue => g.due_at.is_none(),
        Trait::Reminded => g.remind_at.is_some(),
        Trait::NoRepeat => g.repeat_rule.is_none(),
        Trait::Daily => opt_is(&g.repeat_rule, "daily"),
        Trait::Weekly => opt_is(&g.repeat_rule, "weekly"),
        Trait::Monthly => opt_is(&g.repeat_rule, "monthly"),
        Trait::Yearly => opt_is(&g.repeat_rule, "yearly"),
    }
}

/// How many goals have a trait.
pub open spec fn tally(goals: Seq<Goal>, t: Trait, d: Dates) -> nat
    decreases goals.len(),
{
    if goals.len() == 0 {
        0
    } else {
        tally(goals.drop_last(), t, d) + (if has(goals.last(), t, d) {
            1nat
        } else {
            0nat
        })
    }
}

fn count(goals: &Vec<Goal>, t: Trait, d: &Dates) -> (r: usize)
    ensures
        r == tally(goals@, t, *d),
{
    let mut n: usize = 0;
    assert(goals@.take(0) =~= Seq::empty());
    for i in 0..goals.len()
        invariant
            n == tally(goals@.take(i as int), t, *d),
            n <= i,
    {
        assert(goals@.take(i + 1).drop_last() =~= goals@.take(i as int));
        if has_trait(&goals[i], t, d) {
            n = n + 1;
        }
    }
    assert(goals@.take(goals@.len() as int) =~= goals@);
    n
}

/// Every goal is counted under exactly one status.
pub proof fn law_statuses_add_up(goals: Seq<Goal>, d: Dates)
    ensures
        tally(goals, Trait::Status(GoalStatus::Pending), d) + tally(
            goals,
            Trait::Status(GoalStatus::InProgress),
            d,
        ) + tally(goals, Trait::Status(GoalStatus::Completed), d) + tally(
            goals,
            Trait::Status(GoalStatus::AgentMode),
            d,
        ) == goals.len(),
    decreases goals.len(),
{
    if goals.len() > 0 {
        law_statuses_add_up(goals.drop_last(), d);
    }
}

/// How many goals stand in a sheet.
pub open spec fn in_sheet(goals: Seq<Goal>, id: Seq<char>) -> nat
    decreases goals.len(),
{
    if goals.len() == 0 {
        0
    } else {
        in_sheet(goals.drop_last(), id) + (if opt(goals.last().sheet_id) == Some(id) {
            1nat
        } else {
            0nat
        })
    }
}

fn count_in_sheet(goals: &Vec<Goal>, id: &str) -> (r: usize)
    ensures
        r == in_sheet(goals@, id@),
{
    let mut n: usize = 0;
    assert(goals@.take(0) =~= Seq::empty());
    for i in 0..goals.len()
        invariant
            n == in_sheet(goals@.take(i as int), id@),
            n <= i,
    {
        assert(goals@.take(i + 1).drop_last() =~= goals@.take(i as int));
        if opt_is(&goals[i].sheet_id, id) {
            n = n + 1;
        }
    }
    assert(goals@.take(goals@.len() as int) =~= goals@);
    n
}

/// The statistics of the goals.
#[derive(Debug)]
pub struct Stats {
    pub total: usize,
    pub pending: usize,
    pub in_progress: usize,
    pub completed: usize,
    pub agent_mode: usize,
    pub overdue: usize,
    pub due_today: usize,
    pub due_week: usize,
    pub no_due: usize,
    pub remind_set: usize,
    pub repeat_none: usize,
    pub repeat_daily: usize,
    pub repeat_weekly: usize,
    pub repeat_monthly: usize,
    pub repeat_yearly: usize,
    pub sheets_count: usize,
    /// The name of each sheet with the number of its goals.
    pub sheet_distribution: Vec<(String, usize)>,
    pub agent_queued: usize,
    pub agent_running: usize,
    pub agent_completed: usize,
    pub agent_failed: usize,
    /// The goals that have children.
    pub parents: usize,
    /// The goals that have a parent.
    pub children: usize,
}

/// The ids that some goals name as their parent.
pub open spec fn parent_ids(goals: Seq<Goal>) -> Set<Seq<char>>
    decreases goals.len(),
{
    if goals.len() == 0 {
        Set::empty()
    } else {
        let before = parent_ids(goals.drop_last());
        match goals.last().parent_id {
            Some(p) => before.insert(p@),
            None => before,
        }
    }
}

/// The number of goals that name a parent.
pub open spec fn child_count(goals: Seq<Goal>) -> nat
    decreases goals.len(),
{
    if goals.len() == 0 {
        0
    } else {
        child_count(goals.drop_last()) + (if goals.last().parent_id is Some {
            1nat
        } else {
            0
        })
    }
}

fn family(goals: &Vec<Goal>) -> (r: (usize, usize))
    ensures
        r.0 == parent_ids(goals@).len(),
        r.1 == child_count(goals@),
{
    let mut seen = StrSet::new();
    let mut parents: usize = 0;
    let mut children: usize = 0;
    assert(goals@.take(0) =~= Seq::empty());
    for i in 0..goals.len()
        invariant
            seen@ == parent_ids(goals@.take(i as int)),
            seen@.finite(),
            parents == seen@.len(),
            children == child_count(goals@.take(i as int)),
            parents <= i,
            children <= i,
    {
        assert(goals@.take(i + 1).drop_last() =~= goals@.take(i as int));
        assert(goals@.take(i + 1).last() == goals@[i as int]);
        if let Some(p) = &goals[i].parent_id {
            children = children + 1;
            if !seen.contains(p.as_str()) {
                parents = parents + 1;
            } else {
                assert(seen@.insert(p@) =~= seen@);
            }
            seen.insert(p.clone());
        }
    }
    assert(goals@.take(goals@.len() as int) =~= goals@);
    (parents, children)
}

/// The sheets with the numbers of their goals.
pub open spec fn distribution(s: Seq<(String, usize)>) -> Seq<(Seq<char>, nat)> {
    s.map_values(|e: (String, usize)| (e.0@, e.1 as nat))
}

/// Whether the numbers are those of some goals.
pub open spec fn counts(s: Stats, goals: Seq<Goal>, d: Dates) -> bool {
    &&& s.total == goals.len()
    &&& s.parents == parent_ids(goals).len()
    &&& s.children == child_count(goals)
    &&& s.pending == tally(goals, Trait::Status(GoalStatus::Pending), d)
    &&& s.in_progress == tally(goals, Trait::Status(GoalStatus::InProgress), d)
    &&& s.completed == tally(goals, Trait::Status(GoalStatus::Completed), d)
    &&& s.agent_mode == tally(goals, Trait::Status(GoalStatus::AgentMode), d)
    &&& s.overdue == tally(goals, Trait::Overdue, d)
    &&& s.due_today == tally(goals, Trait::DueToday, d)
    &&& s.due_week == tally(goals, Trait::DueWeek, d)
    &&& s.no_due == tally(goals, Trait::NoDue, d)
    &&& s.remind_set == tally(goals, Trait::Reminded, d)
    &&& s.repeat_none == tally(goals, Trait::NoRepeat, d)
    &&& s.repeat_daily == tally(goals, Trait::Daily, d)
    &&& s.repeat_weekly == tally(goals, Trait::Weekly, d)
    &&& s.repeat_monthly == tally(goals, Trait::Monthly, d)
    &&& s.repeat_yearly == tally(goals, Trait::Yearly, d)
    &&& s.agent_queued == tally(goals, Trait::Agent(AgentStatus::Queued), d)
    &&& s.agent_running == tally(goals, Trait::Agent(AgentStatus::Running), d)
    &&& s.agent_completed == tally(goals, Trait::Agent(AgentStatus::Completed), d)
    &&& s.agent_failed == tally(goals, Trait::Agent(AgentStatus::Failed), d)
}

fn distribute(sheets: &Vec<GoalSheet>, goals: &Vec<Goal>) -> (r: Vec<(String, usize)>)
    ensures
        distribution(r@) == sheets@.map_values(
            |s: GoalSheet| (s.name@, in_sheet(goals@, s.id@)),
        ),
{
    let ghost f = |s: GoalSheet| (s.name@, in_sheet(goals@, s.id@));
    let mut out: Vec<(String, usize)> = Vec::new();
    for i in 0..sheets.len()
        invariant
            f == (|s: GoalSheet| (s.name@, in_sheet(goals@, s.id@))),
            distribution(out@) =~= sheets@.take(i as int).map_values(f),
    {
        let ghost before = distribution(out@);
        let n: usize = count_in_sheet(goals, sheets[i].id.as_str());
        out.push((sheets[i].name.clone(), n));
        let ghost v = f(sheets@[i as int]);
        assert(distribution(out@) =~= before.push(v));
        assert(sheets@.take(i + 1).map_values(f) =~= sheets@.take(i as int).map_values(f).push(v));
    }
    assert(sheets@.take(sheets@.len() as int) =~= sheets@);
    out
}

impl App {
    /// The statistics of the goals and sheets at some dates.
    pub fn stats_snapshot(&self, d: &Dates) -> (r: Stats)
        ensures
            counts(r, self.goals@, *d),
            r.sheets_count == self.sheets@.len(),
            distribution(r.sheet_distribution@) == self.sheets@.map_values(
                |s: GoalSheet| (s.name@, in_sheet(self.goals@, s.id@)),
            ),
    {
        let g = &self.goals;
        let (parents, children) = family(g);
        Stats {
            total: g.len(),
            pending: count(g, Trait::Status(GoalStatus::Pending), d),
            in_progress: count(g, Trait::Status(GoalStatus::InProgress), d),
            completed: count(g, Trait::Status(GoalStatus::Completed), d),
            agent_mode: count(g, Trait::Status(GoalStatus::AgentMode), d),
            overdue: count(g, Trait::Overdue, d),
            due_today: count(g, Trait::DueToday, d),
            due_week: count(g, Trait::DueWeek, d),
            no_due: count(g, Trait::NoDue, d),
            remind_set: count(g, Trait::Reminded, d),
            repeat_none: count(g, Trait::NoRepeat, d),
            repeat_daily: count(g, Trait::Daily, d),
            repeat_weekly: count(g, Trait::Weekly, d),
            repeat_monthly: count(g, Trait::Monthly, d),
            repeat_yearly: count(g, Trait::Yearly, d),
            sheets_count: self.sheets.len(),
            sheet_distribution: distribute(&self.sheets, g),
            agent_queued: count(g, Trait::Agent(AgentStatus::Queued), d),
            agent_running: count(g, Trait::Agent(AgentStatus::Running), d),
            agent_completed: count(g, Trait::Agent(AgentStatus::Completed), d),
            agent_failed: count(g, Trait::Agent(AgentStatus::Failed), d),
            parents,
            children,
        }
    }
}

// ---------- the page ----------

/// A share of all goals: the filled cells of its bar, and its percentage with one
/// digit behind the point.
#[derive(Debug)]
pub struct Share {
    pub filled: usize,
    pub percent: String,
}

/// The shares of the statuses and of the sheets.
#[derive(Debug)]
pub struct Shares {
    pub pending: Share,
    pub in_progress: Share,
    pub completed: Share,
    pub agent_mode: Share,
    pub sheets: Vec<Share>,
}

/// The cells of a bar.
pub const BAR: usize = 14;

/// A bar with some filled cells.
pub open spec fn bar(filled: nat) -> Seq<char> {
    times("█"@, filled) + times(
        "░"@,
        if filled <= BAR {
            (BAR - filled) as nat
        } else {
            0
        },
    )
}

fn bar_text(filled: usize) -> (r: String)
    ensures
        r@ == bar(filled as nat),
{
    let rest: usize = if filled <= BAR {
        BAR - filled
    } else {
        0
    };
    concat(repeat("█", filled).as_str(), repeat("░", rest).as_str())
}

/// A number in four columns.
pub open spec fn column(n: nat) -> Seq<char> {
    padded_left(decimal(n), 4)
}

fn column_text(n: usize) -> (r: String)
    ensures
        r@ == column(n as nat),
{
    pad_left(number(n as u64).as_str(), 4)
}

/// Number, bar and percentage of a share behind the label of its row.
pub open spec fn share_line(
    label: Seq<char>,
    n: nat,
    number_style: crate::view::Style,
    s: Share,
    color: Color,
    c: Palette,
) -> Seq<SpanView> {
    blank().push(span(label, ink(c.on_background))).push(
        span(column(n) + "  "@, number_style),
    ).push(span(bar(s.filled as nat), ink(color))).push(
        span(" "@ + padded_left(s.percent@, 5) + "%"@, ink(c.outline_variant)),
    )
}

fn share_row(
    label: &str,
    n: usize,
    number_style: crate::view::Style,
    s: &Share,
    color: Color,
    c: &Palette,
) -> (r: Line)
    ensures
        r@ == share_line(label@, n as nat, number_style, *s, color, *c),
{
    Line::new().put(label, ink(c.on_background)).put(
        concat(column_text(n).as_str(), "  ").as_str(),
        number_style,
    ).put(bar_text(s.filled).as_str(), ink(color)).put(
        concat3(" ", pad_left(s.percent.as_str(), 5).as_str(), "%").as_str(),
        ink(c.outline_variant),
    )
}

/// The row of a status.
pub open spec fn status_line(label: Seq<char>, n: nat, s: Share, color: Color, c: Palette) -> Seq<
    SpanView,
> {
    share_line("  "@ + padded_right(label, 12), n, bold(color), s, color, c)
}

fn status_row(label: &str, n: usize, s: &Share, color: Color, c: &Palette) -> (r: Line)
    ensures
        r@ == status_line(label@, n as nat, *s, color, *c),
{
    share_row(concat("  ", pad_right(label, 12).as_str()).as_str(), n, bold(color), s, color, c)
}

/// The rows of the sheets.
pub open spec fn sheet_lines(
    list: Seq<(Seq<char>, nat)>,
    shares: Seq<Share>,
    c: Palette,
) -> Seq<Seq<SpanView>> {
    Seq::new(
        list.len(),
        |i: int|
            share_line(
                "    "@ + padded_right(truncated(list[i].0, 20), 20),
                list[i].1,
                ink(c.primary),
                shares[i],
                c.primary,
                c,
            ),
    )
}

fn put_sheets(page: Page, list: &Vec<(String, usize)>, shares: &Vec<Share>, c: &Palette) -> (r: Page)
    requires
        shares@.len() == list@.len(),
    ensures
        r@ == page@ + sheet_lines(distribution(list@), shares@, *c),
{
    let ghost start = page@;
    let ghost all = sheet_lines(distribution(list@), shares@, *c);
    let mut page = page;
    assert(start + all.take(0) =~= start);
    for i in 0..list.len()
        invariant
            shares@.len() == list@.len(),
            all == sheet_lines(distribution(list@), shares@, *c),
            page@ == start + all.take(i as int),
    {
        let name = truncate_str(list[i].0.as_str(), 20);
        let label = concat("    ", pad_right(name.as_str(), 20).as_str());
        let row = share_row(label.as_str(), list[i].1, ink(c.primary), &shares[i], c.primary, c);
        assert(row@ == all[i as int]);
        page = page.line(row);
        assert(page@ =~= start + all.take(i + 1));
    }
    assert(all.take(list@.len() as int) =~= all);
    page
}

/// A label with a number in four columns behind it.
pub open spec fn entry(label: Seq<char>, n: nat) -> Seq<char> {
    label + column(n)
}

fn entry_text(label: &str, n: usize) -> (r: String)
    ensures
        r@ == entry(label@, n as nat),
{
    concat(label, column_text(n).as_str())
}

/// What the page says of due dates.
pub open spec fn due_text(s: Stats) -> Seq<char> {
    entry("  due today "@, s.due_today as nat) + entry("  due week "@, s.due_week as nat) + entry(
        "  no due "@,
        s.no_due as nat,
    ) + entry("  remind "@, s.remind_set as nat)
}

/// What the page says of repeat rules.
pub open spec fn repeat_text(s: Stats) -> Seq<char> {
    entry("    none "@, s.repeat_none as nat) + entry("  daily "@, s.repeat_daily as nat) + entry(
        "  weekly "@,
        s.repeat_weekly as nat,
    ) + entry("  monthly "@, s.repeat_monthly as nat) + entry(
        "  yearly "@,
        s.repeat_yearly as nat,
    )
}

/// What the page says of agents.
pub open spec fn agent_text(s: Stats) -> Seq<char> {
    entry("    queued "@, s.agent_queued as nat) + entry("  running "@, s.agent_running as nat)
        + entry("  completed "@, s.agent_completed as nat) + entry(
        "  failed "@,
        s.agent_failed as nat,
    )
}

/// The lines above the sheets.
pub open spec fn stats_head(s: Stats, shares: Shares, avg: Seq<char>, c: Palette) -> Seq<
    Seq<SpanView>,
> {
    no_lines().push(one("  Total goals: "@ + decimal(s.total as nat), bold(c.primary))).push(
        blank(),
    ).push(
        status_line("pending"@, s.pending as nat, shares.pending, c.on_surface_variant, c),
    ).push(
        status_line("in progress"@, s.in_progress as nat, shares.in_progress, c.primary, c),
    ).push(status_line("completed"@, s.completed as nat, shares.completed, c.success, c)).push(
        status_line("agent mode"@, s.agent_mode as nat, shares.agent_mode, c.tertiary, c),
    ).push(blank()).push(
        blank().push(span("  overdue      "@, ink(c.on_background))).push(
            span(column(s.overdue as nat), bold(c.error)),
        ).push(span(due_text(s), ink(c.outline_variant))),
    ).push(blank()).push(one("  Repeat"@, bold(c.secondary))).push(
        one(repeat_text(s), ink(c.on_background)),
    ).push(blank()).push(
        blank().push(span("  Sheets"@, bold(c.secondary))).push(
            span("  count: "@ + decimal(s.sheets_count as nat), ink(c.outline_variant)),
        ).push(span("  avg children: "@ + avg, ink(c.outline_variant))),
    )
}

/// The lines of the page.
pub open spec fn stats_lines(s: Stats, shares: Shares, avg: Seq<char>, c: Palette) -> Seq<
    Seq<SpanView>,
> {
    (stats_head(s, shares, avg, c) + sheet_lines(
        distribution(s.sheet_distribution@),
        shares.sheets@,
        c,
    )).push(blank()).push(one("  Agent"@, bold(c.secondary))).push(
        one(agent_text(s), ink(c.on_background)),
    )
}

fn put_head(s: &Stats, shares: &Shares, avg: &str, c: &Palette) -> (r: Page)
    ensures
        r@ == stats_head(*s, *shares, avg@, *c),
{
    let due = concat4(
        entry_text("  due today ", s.due_today).as_str(),
        entry_text("  due week ", s.due_week).as_str(),
        entry_text("  no due ", s.no_due).as_str(),
        entry_text("  remind ", s.remind_set).as_str(),
    );
    let rules = concat4(
        entry_text("    none ", s.repeat_none).as_str(),
        entry_text("  daily ", s.repeat_daily).as_str(),
        entry_text("  weekly ", s.repeat_weekly).as_str(),
        entry_text("  monthly ", s.repeat_monthly).as_str(),
    );
    let rules = concat(rules.as_str(), entry_text("  yearly ", s.repeat_yearly).as_str());
    let total = concat("  Total goals: ", number(s.total as u64).as_str());
    let sheets = concat("  count: ", number(s.sheets_count as u64).as_str());
    Page::new().one(total.as_str(), bold(c.primary)).blank().line(
        status_row("pending", s.pending, &shares.pending, c.on_surface_variant, c),
    ).line(status_row("in progress", s.in_progress, &shares.in_progress, c.primary, c)).line(
        status_row("completed", s.completed, &shares.completed, c.success, c),
    ).line(status_row("agent mode", s.agent_mode, &shares.agent_mode, c.tertiary, c)).blank().line(
        Line::new().put("  overdue      ", ink(c.on_background)).put(
            column_text(s.overdue).as_str(),
            bold(c.error),
        ).put(due.as_str(), ink(c.outline_variant)),
    ).blank().one("  Repeat", bold(c.secondary)).one(rules.as_str(), ink(c.on_background)).blank().line(
        Line::new().put("  Sheets", bold(c.secondary)).put(
            sheets.as_str(),
            ink(c.outline_variant),
        ).put(concat("  avg children: ", avg).as_str(), ink(c.outline_variant)),
    )
}

/// The page of the statistics; `avg` is the average number of children.
pub fn render_stats(s: &Stats, shares: &Shares, avg: &str, c: &Palette) -> (r: Popup)
    requires
        shares.sheets@.len() == s.sheet_distribution@.len(),
    ensures
        r.title@ == " Stats "@,
        r.percent_x == 70,
        r.percent_y == 75,
        r.border == c.primary,
        r.page@ == stats_lines(*s, *shares, avg@, *c),
{
    let head = put_head(s, shares, avg, c);
    let agents = concat4(
        entry_text("    queued ", s.agent_queued).as_str(),
        entry_text("  running ", s.agent_running).as_str(),
        entry_text("  completed ", s.agent_completed).as_str(),
        entry_text("  failed ", s.agent_failed).as_str(),
    );
    let page = put_sheets(head, &s.sheet_distribution, &shares.sheets, c).blank().one(
        "  Agent",
        bold(c.secondary),
    ).one(agents.as_str(), ink(c.on_background));
    Popup { title: " Stats ".to_string(), percent_x: 70, percent_y: 75, border: c.primary, page }
}

/// What makes a goal count, trait by trait.
pub proof fn law_traits_are_told_by_the_fields(g: Goal, d: Dates, s: GoalStatus, a: AgentStatus)
    ensures
        has(g, Trait::Status(s), d) <==> g.status == s,
        has(g, Trait::Agent(a), d) <==> g.agent_status == Some(a),
        g.due_at is None ==> has(g, Trait::NoDue, d) && !(has(g, Trait::Overdue, d)) && !(has(
            g,
            Trait::DueToday,
            d,
        )) && !(has(g, Trait::DueWeek, d)),
        g.due_at is Some ==> !(has(g, Trait::NoDue, d)) && (has(g, Trait::Overdue, d) <==> str_less(
            g.due_at->0@,
            d.now@,
        ) && g.status != GoalStatus::Completed) && (has(g, Trait::DueToday, d) <==> starts_with(
            g.due_at->0@,
            d.today@,
        )) && (has(g, Trait::DueWeek, d) <==> !str_less(g.due_at->0@, d.now@) && str_less(
            g.due_at->0@,
            d.week@,
        )),
        has(g, Trait::Reminded, d) <==> g.remind_at is Some,
        has(g, Trait::NoRepeat, d) <==> g.repeat_rule is None,
        has(g, Trait::Daily, d) <==> g.repeat_rule is Some && g.repeat_rule->0@ == "daily"@,
        has(g, Trait::Weekly, d) <==> g.repeat_rule is Some && g.repeat_rule->0@ == "weekly"@,
        has(g, Trait::Monthly, d) <==> g.repeat_rule is Some && g.repeat_rule->0@ == "monthly"@,
        has(g, Trait::Yearly, d) <==> g.repeat_rule is Some && g.repeat_rule->0@ == "yearly"@,
{
}

/// A goal that is due this week is not overdue.
pub proof fn law_due_is_not_overdue(g: Goal, d: Dates)
    ensures
        !(has(g, Trait::DueWeek, d) && has(g, Trait::Overdue, d)),
{
}

/// Each number is that of the goals that have what it counts.
pub proof fn law_numbers_count_goals(goals: Seq<Goal>, t: Trait, d: Dates, id: Seq<char>)
    ensures
        tally(goals, t, d) == goals.filter(|g: Goal| has(g, t, d)).len(),
        in_sheet(goals, id) == goals.filter(
            |g: Goal| g.sheet_id is Some && g.sheet_id->0@ == id,
        ).len(),
        child_count(goals) == goals.filter(|g: Goal| g.parent_id is Some).len(),
        parent_ids(goals).contains(id) <==> exists|i: int|
            0 <= i < goals.len() && (#[trigger] goals[i]).parent_id is Some
                && goals[i].parent_id->0@ == id,
    decreases goals.len(),
{
    reveal(Seq::filter);
    if goals.len() > 0 {
        let before = goals.drop_last();
        law_numbers_count_goals(before, t, d, id);
        assert(forall|i: int| 0 <= i < before.len() ==> before[i] == #[trigger] goals[i]);
        let n = goals.len() - 1;
        assert(goals[n] == goals.last());
        if parent_ids(before).contains(id) {
            let i = choose|i: int|
                0 <= i < before.len() && (#[trigger] before[i]).parent_id is Some
                    && before[i].parent_id->0@ == id;
            assert(goals[i].parent_id is Some);
        }
    }
}

/// The day of a time is its first ten characters.
pub proof fn law_a_day_has_ten_characters(s: Seq<char>, i: int)
    ensures
        s.len() >= 10 ==> first_chars(s, 10).len() == 10,
        s.len() < 10 ==> first_chars(s, 10) == s,
        0 <= i < first_chars(s, 10).len() ==> first_chars(s, 10)[i] == s[i],
{
}

/// A bar has fourteen cells, the filled ones in front.
pub proof fn law_a_bar_has_fourteen_cells(filled: nat, i: int)
    requires
        filled <= 14,
    ensures
        bar(filled).len() == 14,
        0 <= i < filled ==> bar(filled)[i] == '█',
        filled <= i < 14 ==> bar(filled)[i] == '░',
{
    reveal_strlit("█");
    reveal_strlit("░");
    assert("█"@ =~= seq!['█']);
    assert("░"@ =~= seq!['░']);
    lemma_times_char('█', filled);
    lemma_times_char('░', (14 - filled) as nat);
}

proof fn lemma_tally(goals: Seq<Goal>, t: Trait, d: Dates, cond: spec_fn(Goal) -> bool)
    requires
        forall|g: Goal| #[trigger] cond(g) <==> has(g, t, d),
    ensures
        tally(goals, t, d) == goals.filter(cond).len(),
    decreases goals.len(),
{
    reveal(Seq::filter);
    if goals.len() > 0 {
        lemma_tally(goals.drop_last(), t, d, cond);
        assert(cond(goals.last()) <==> has(goals.last(), t, d));
    }
}

/// Every number of the statistics is that of the goals which it is named after.
#[verifier::rlimit(60)]
pub proof fn law_statistics_count_what_they_say(s: Stats, goals: Seq<Goal>, d: Dates)
    requires
        counts(s, goals, d),
    ensures
        s.total == goals.len(),
        s.children == goals.filter(|g: Goal| g.parent_id is Some).len(),
        s.pending == goals.filter(|g: Goal| g.status == GoalStatus::Pending).len(),
        s.in_progress == goals.filter(|g: Goal| g.status == GoalStatus::InProgress).len(),
        s.completed == goals.filter(|g: Goal| g.status == GoalStatus::Completed).len(),
        s.agent_mode == goals.filter(|g: Goal| g.status == GoalStatus::AgentMode).len(),
        s.overdue == goals.filter(|g: Goal| g.due_at is Some && str_less(g.due_at->0@, d.now@) && g.status != GoalStatus::Completed).len(),
        s.due_today == goals.filter(|g: Goal| g.due_at is Some && starts_with(g.due_at->0@, d.today@)).len(),
        s.due_week == goals.filter(|g: Goal| g.due_at is Some && !str_less(g.due_at->0@, d.now@) && str_less(g.due_at->0@, d.week@)).len(),
        s.no_due == goals.filter(|g: Goal| g.due_at is None).len(),
        s.remind_set == goals.filter(|g: Goal| g.remind_at is Some).len(),
        s.repeat_none == goals.filter(|g: Goal| g.repeat_rule is None).len(),
        s.repeat_daily == goals.filter(|g: Goal| g.repeat_rule is Some && g.repeat_rule->0@ == "daily"@).len(),
        s.repeat_weekly == goals.filter(|g: Goal| g.repeat_rule is Some && g.repeat_rule->0@ == "weekly"@).len(),
        s.repeat_monthly == goals.filter(|g: Goal| g.repeat_rule is Some && g.repeat_rule->0@ == "monthly"@).len(),
        s.repeat_yearly == goals.filter(|g: Goal| g.repeat_rule is Some && g.repeat_rule->0@ == "yearly"@).len(),
        s.agent_queued == goals.filter(|g: Goal| g.agent_status == Some(AgentStatus::Queued)).len(),
        s.agent_running == goals.filter(|g: Goal| g.agent_status == Some(AgentStatus::Running)).len(),
        s.agent_completed == goals.filter(|g: Goal| g.agent_status == Some(AgentStatus::Completed)).len(),
        s.agent_failed == goals.filter(|g: Goal| g.agent_status == Some(AgentStatus::Failed)).len(),
{
    law_numbers_count_goals(goals, Trait::NoDue, d, Seq::empty());
    lemma_tally(goals, Trait::Status(GoalStatus::Pending), d, |g: Goal| g.status == GoalStatus::Pending);
    lemma_tally(goals, Trait::Status(GoalStatus::InProgress), d, |g: Goal| g.status == GoalStatus::InProgress);
    lemma_tally(goals, Trait::Status(GoalStatus::Completed), d, |g: Goal| g.status == GoalStatus::Completed);
    lemma_tally(goals, Trait::Status(GoalStatus::AgentMode), d, |g: Goal| g.status == GoalStatus::AgentMode);
    lemma_tally(goals, Trait::Overdue, d, |g: Goal| g.due_at is Some && str_less(g.due_at->0@, d.now@) && g.status != GoalStatus::Completed);
    lemma_tally(goals, Trait::DueToday, d, |g: Goal| g.due_at is Some && starts_with(g.due_at->0@, d.today@));
    lemma_tally(goals, Trait::DueWeek, d, |g: Goal| g.due_at is Some && !str_less(g.due_at->0@, d.now@) && str_less(g.due_at->0@, d.week@));
    lemma_tally(goals, Trait::NoDue, d, |g: Goal| g.due_at is None);
    lemma_tally(goals, Trait::Reminded, d, |g: Goal| g.remind_at is Some);
    lemma_tally(goals, Trait::NoRepeat, d, |g: Goal| g.repeat_rule is None);
    lemma_tally(goals, Trait::Daily, d, |g: Goal| g.repeat_rule is Some && g.repeat_rule->0@ == "daily"@);
    lemma_tally(goals, Trait::Weekly, d, |g: Goal| g.repeat_rule is Some && g.repeat_rule->0@ == "weekly"@);
    lemma_tally(goals, Trait::Monthly, d, |g: Goal| g.repeat_rule is Some && g.repeat_rule->0@ == "monthly"@);
    lemma_tally(goals, Trait::Yearly, d, |g: Goal| g.repeat_rule is Some && g.repeat_rule->0@ == "yearly"@);
    lemma_tally(goals, Trait::Agent(AgentStatus::Queued), d, |g: Goal| g.agent_status == Some(AgentStatus::Queued));
    lemma_tally(goals, Trait::Agent(AgentStatus::Running), d, |g: Goal| g.agent_status == Some(AgentStatus::Running));
    lemma_tally(goals, Trait::Agent(AgentStatus::Completed), d, |g: Goal| g.agent_status == Some(AgentStatus::Completed));
    lemma_tally(goals, Trait::Agent(AgentStatus::Failed), d, |g: Goal| g.agent_status == Some(AgentStatus::Failed));
}

/// The page shows each number behind its word.
pub proof fn law_the_page_shows_each_number(s: Stats)
    ensures
        due_text(s) == "  due today "@ + column(s.due_today as nat) + ("  due week "@ + column(
            s.due_week as nat,
        )) + ("  no due "@ + column(s.no_due as nat)) + ("  remind "@ + column(
            s.remind_set as nat,
        )),
        repeat_text(s) == "    none "@ + column(s.repeat_none as nat) + ("  daily "@ + column(
            s.repeat_daily as nat,
        )) + ("  weekly "@ + column(s.repeat_weekly as nat)) + ("  monthly "@ + column(
            s.repeat_monthly as nat,
        )) + ("  yearly "@ + column(s.repeat_yearly as nat)),
        agent_text(s) == "    queued "@ + column(s.agent_queued as nat) + ("  running "@ + column(
            s.agent_running as nat,
        )) + ("  completed "@ + column(s.agent_completed as nat)) + ("  failed "@ + column(
            s.agent_failed as nat,
        )),
{
}

/// The statuses are shown in order, each with its number, its own share and its own color.
pub proof fn law_statuses_are_shown_with_their_share(
    s: Stats,
    shares: Shares,
    avg: Seq<char>,
    c: Palette,
)
    ensures
        stats_lines(s, shares, avg, c)[0][0].text == "  Total goals: "@ + decimal(s.total as nat),
        stats_lines(s, shares, avg, c)[2] == status_line(
            "pending"@,
            s.pending as nat,
            shares.pending,
            c.on_surface_variant,
            c,
        ),
        stats_lines(s, shares, avg, c)[3] == status_line(
            "in progress"@,
            s.in_progress as nat,
            shares.in_progress,
            c.primary,
            c,
        ),
        stats_lines(s, shares, avg, c)[4] == status_line(
            "completed"@,
            s.completed as nat,
            shares.completed,
            c.success,
            c,
        ),
        stats_lines(s, shares, avg, c)[5] == status_line(
            "agent mode"@,
            s.agent_mode as nat,
            shares.agent_mode,
            c.tertiary,
            c,
        ),
        stats_lines(s, shares, avg, c)[7][1].text == column(s.overdue as nat),
{
}

/// The row of a share shows the number, the bar and the percentage of this share.
pub proof fn law_a_share_is_shown(label: Seq<char>, n: nat, s: Share, color: Color, c: Palette)
    ensures
        status_line(label, n, s, color, c).len() == 4,
        status_line(label, n, s, color, c)[0].text == "  "@ + padded_right(label, 12),
        status_line(label, n, s, color, c)[1].text == column(n) + "  "@,
        status_line(label, n, s, color, c)[2].text == bar(s.filled as nat),
        status_line(label, n, s, color, c)[2].style.fg == Some(color),
        status_line(label, n, s, color, c)[3].text == " "@ + padded_left(s.percent@, 5) + "%"@,
{
}

} // verus!
