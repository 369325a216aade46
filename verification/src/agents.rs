//! Agent runs: the picker, the range assignment, and the events of a run.

use crate::app::{least, says, typed, App};
use crate::collections::StrMap;
use crate::db::{settings_to_config, string_members, PluginRow};
use crate::goals::{find_goal, goal_with, within};
use crate::json::{
    has_member, members_or_empty, merge_into, merged, new_object, no_members, object_of,
    object_text, parse_object, parse_or_empty, parse_under, put_member, put_string, single,
    string_text, to_text, value_of,
};
use crate::manager::{plugin_rows, rows_installed, Installed};
use crate::schema::{no_change, AgentStatus, Goal, UpdateGoalInput};
use crate::text::{
    concat, contains, cut, cut_at, decimal, ends_with, from_chars, is_white_space,
    law_cuts_are_made_at_the_first_occurrence, law_leading_characters_are_cut,
    law_numbers_are_read_back, law_trimming_cuts_blanks_at_both_ends, lemma_first_index,
    lemma_first_index_is, next_occurrence, number, occurs_at, opt, opt_clone, parse_usize, parsed,
    repeated, split_at, split_once, str_contains, str_ends_with, str_eq, take, texts, to_chars, trim,
    trim_chars, trim_leading, trimmed, without_leading,
};
use crate::tree::{law_sorted_is_an_ordered_permutation, sort_goals, sorted, unique_ids};
use crate::types::{
    empty_input, AgentChoice, AgentFile, Manifest, Mode, UiField, UiSpec,
};
use vstd::prelude::*;

verus! {

// ---------- the picker ----------

/// What a choice of the agent picker is.
pub struct ChoiceView {
    pub plugin: Seq<char>,
    pub model: Option<Seq<char>>,
    pub binary: Seq<char>,
    pub is_lua: bool,
    pub config: Option<Seq<char>>,
}

impl View for AgentChoice {
    type V = ChoiceView;

    open spec fn view(&self) -> ChoiceView {
        ChoiceView {
            plugin: self.plugin@,
            model: opt(self.model),
            binary: self.binary@,
            is_lua: self.is_lua,
            config: opt(self.config),
        }
    }
}

/// What some choices are.
pub open spec fn choices_view(s: Seq<AgentChoice>) -> Seq<ChoiceView> {
    s.map_values(|c: AgentChoice| c@)
}

/// Whether a plugin can run goals: a provider or an agent, in Lua or built.
pub open spec fn runs(m: Manifest) -> bool {
    (m.provider || m.agent) && (m.is_lua || m.binary_exists)
}

/// Whether a plugin can run goals.
pub fn can_run(m: &Manifest) -> (r: bool)
    ensures
        r == runs(*m),
{
    (m.provider || m.agent) && (m.is_lua || m.binary_exists)
}

/// Whether an installed plugin can run goals: an active one that can.
pub open spec fn runs_goals(p: Installed) -> bool {
    p.row.active && (match p.manifest {
        Some(m) => runs(m),
        None => false,
    })
}

/// Whether an installed plugin can run goals.
pub fn is_runner(p: &Installed) -> (r: bool)
    ensures
        r == runs_goals(*p),
{
    p.row.active && (match &p.manifest {
        Some(m) => can_run(m),
        None => false,
    })
}

/// Settings with the defaults of a form for the fields that were never saved.
pub open spec fn defaulted(
    m: Map<Seq<char>, Seq<char>>,
    fields: Seq<UiField>,
) -> Map<Seq<char>, Seq<char>>
    decreases fields.len(),
{
    if fields.len() == 0 {
        m
    } else {
        let d = defaulted(m, fields.drop_last());
        let f = fields.last();
        match f.default {
            Some(v) => if d.contains_key(f.key@) {
                d
            } else {
                d.insert(f.key@, v@)
            },
            None => d,
        }
    }
}

/// The fields of an optional form.
pub open spec fn fields_of(ui: Option<UiSpec>) -> Seq<UiField> {
    match ui {
        Some(spec) => spec.fields@,
        None => Seq::empty(),
    }
}

/// Fills in the defaults of a form.
pub fn with_defaults(settings: &StrMap, ui: &Option<UiSpec>) -> (r: StrMap)
    ensures
        r@ == defaulted(settings@, fields_of(*ui)),
{
    let mut m = settings.copy();
    match ui {
        Some(spec) => {
            assert(spec.fields@.take(0) =~= Seq::empty());
            for i in 0..spec.fields.len()
                invariant
                    m@ == defaulted(settings@, spec.fields@.take(i as int)),
            {
                assert(spec.fields@.take(i + 1).drop_last() =~= spec.fields@.take(i as int));
                match &spec.fields[i].default {
                    Some(v) => {
                        m.insert_if_absent(spec.fields[i].key.as_str(), v.as_str());
                    },
                    None => {},
                }
            }
            assert(spec.fields@.take(spec.fields@.len() as int) =~= spec.fields@);
        },
        None => {},
    }
    m
}

/// A default never replaces a saved setting, and fills in one that was not saved.
pub proof fn law_saved_settings_win(
    m: Map<Seq<char>, Seq<char>>,
    fields: Seq<UiField>,
    k: Seq<char>,
)
    ensures
        m.contains_key(k) ==> defaulted(m, fields).contains_key(k) && defaulted(m, fields)[k] == m[k],
        (exists|i: int|
            0 <= i < fields.len() && (#[trigger] fields[i]).key@ == k && fields[i].default is Some)
            ==> defaulted(m, fields).contains_key(k),
    decreases fields.len(),
{
    if fields.len() > 0 {
        law_saved_settings_win(m, fields.drop_last(), k);
        if exists|i: int|
            0 <= i < fields.len() && (#[trigger] fields[i]).key@ == k && fields[i].default is Some {
            let i = choose|i: int|
                0 <= i < fields.len() && (#[trigger] fields[i]).key@ == k && fields[i].default is Some;
            if i < fields.len() - 1 {
                assert(fields.drop_last()[i] == fields[i]);
            }
        }
    }
}

/// The settings handed to a plugin, as JSON; nothing for no settings.
pub open spec fn config_text(m: Map<Seq<char>, Seq<char>>) -> Option<Seq<char>> {
    if m == no_members() {
        None
    } else {
        Some(object_text(string_members(m)))
    }
}

/// The choices that a plugin offers: one for each model of a provider that lists
/// some, else a single one.
pub open spec fn offers(m: Manifest, config: Option<Seq<char>>) -> Seq<ChoiceView> {
    if m.provider && m.models is Some && m.models->0@.len() > 0 {
        m.models->0@.map_values(
            |x: String|
                ChoiceView {
                    plugin: m.name@,
                    model: Some(x@),
                    binary: m.binary@,
                    is_lua: m.is_lua,
                    config,
                },
        )
    } else {
        seq![
            ChoiceView {
                plugin: m.name@,
                model: None,
                binary: m.binary@,
                is_lua: m.is_lua,
                config,
            },
        ]
    }
}

/// The choices of all plugins that can run goals.
pub open spec fn all_offers(s: Seq<Installed>) -> Seq<ChoiceView>
    decreases s.len(),
{
    if s.len() == 0 {
        Seq::empty()
    } else {
        let p = s.last();
        let before = all_offers(s.drop_last());
        if runs_goals(p) {
            let m = p.manifest->0;
            before + offers(m, config_text(defaulted(p.settings@, fields_of(m.ui))))
        } else {
            before
        }
    }
}

fn add_choice(
    out: &mut Vec<AgentChoice>,
    m: &Manifest,
    model: Option<String>,
    config: &Option<String>,
)
    ensures
        choices_view(final(out)@) == choices_view(old(out)@).push(
            (ChoiceView {
                plugin: m.name@,
                model: opt(model),
                binary: m.binary@,
                is_lua: m.is_lua,
                config: opt(*config),
            }),
        ),
{
    let c = AgentChoice {
        plugin: m.name.clone(),
        model,
        binary: m.binary.clone(),
        is_lua: m.is_lua,
        config: opt_clone(config),
    };
    let ghost v = c@;
    out.push(c);
    assert(choices_view(out@) =~= choices_view(old(out)@).push(v));
}

fn add_offers(out: &mut Vec<AgentChoice>, m: &Manifest, config: &Option<String>)
    ensures
        choices_view(final(out)@) == choices_view(old(out)@) + offers(*m, opt(*config)),
{
    let ghost start = choices_view(out@);
    if m.provider {
        match &m.models {
            Some(models) => {
                if models.len() > 0 {
                    let ghost f = |x: String|
                        ChoiceView {
                            plugin: m.name@,
                            model: Some(x@),
                            binary: m.binary@,
                            is_lua: m.is_lua,
                            config: opt(*config),
                        };
                    let n: usize = models.len();
                    let mut i: usize = 0;
                    while i < n
                        invariant
                            i <= n == models@.len(),
                            f == (|x: String|
                                ChoiceView {
                                    plugin: m.name@,
                                    model: Some(x@),
                                    binary: m.binary@,
                                    is_lua: m.is_lua,
                                    config: opt(*config),
                                }),
                            choices_view(out@) =~= start + models@.take(i as int).map_values(f),
                        decreases n - i,
                    {
                        let model = models[i].clone();
                        add_choice(out, m, Some(model), config);
                        assert(models@.take(i + 1).map_values(f) =~= models@.take(
                            i as int,
                        ).map_values(f).push(f(models@[i as int])));
                        i = i + 1;
                    }
                    assert(models@.take(n as int) =~= models@);
                    return;
                }
            },
            None => {},
        }
    }
    add_choice(out, m, None, config);
    assert(choices_view(out@) =~= start + offers(*m, opt(*config)));
}

/// Gathers the choices of all plugins that can run goals.
pub fn agent_choices(installed: &Vec<Installed>) -> (r: Vec<AgentChoice>)
    ensures
        choices_view(r@) == all_offers(installed@),
{
    let mut out: Vec<AgentChoice> = Vec::new();
    assert(choices_view(out@) =~= Seq::empty());
    assert(installed@.take(0) =~= Seq::empty());
    for i in 0..installed.len()
        invariant
            choices_view(out@) == all_offers(installed@.take(i as int)),
    {
        assert(installed@.take(i + 1).drop_last() =~= installed@.take(i as int));
        let p = &installed[i];
        if is_runner(p) {
            if let Some(m) = &p.manifest {
                let values = with_defaults(&p.settings, &m.ui);
                let config = settings_to_config(&values);
                add_offers(&mut out, m, &config);
            }
        }
    }
    assert(installed@.take(installed@.len() as int) =~= installed@);
    out
}

// ---------- ranges ----------

/// The two ends of an entered range: cut at a hyphen, else at two points, else
/// one goal.
pub open spec fn range_ends(raw: Seq<char>) -> (Seq<char>, Seq<char>) {
    let t = trimmed(without_leading(raw, '@'));
    match split_once(t, '-') {
        Some((s, e)) => (trimmed(s), trimmed(e)),
        None => match split_at(t, ".."@) {
            Some((s, e)) => (trimmed(s), trimmed(e)),
            None => (t, t),
        },
    }
}

/// Reads the two ends of an entered range.
pub fn parse_range(raw: &str) -> (r: (String, String))
    ensures
        (r.0@, r.1@) == range_ends(raw@),
{
    let v = to_chars(raw);
    let bare = trim_leading(&v, '@');
    let t = trim_chars(&bare);
    match cut(&t, '-') {
        Some((s, e)) => {
            let a = trim_chars(&s);
            let b = trim_chars(&e);
            (from_chars(&a), from_chars(&b))
        },
        None => match cut_at(&t, "..") {
            Some((s, e)) => {
                let a = trim_chars(&s);
                let b = trim_chars(&e);
                (from_chars(&a), from_chars(&b))
            },
            None => (from_chars(&t), from_chars(&t)),
        },
    }
}

/// Whether an entered end of a range means a goal by its id or a part of it.
pub open spec fn names_goal(g: Goal, id: Seq<char>) -> bool {
    g.id@ == id || ends_with(g.id@, id) || ends_with(id, g.id@) || contains(g.id@, id)
}

/// The position of the first goal that an id means, or the first of all.
pub open spec fn id_position(s: Seq<Goal>, id: Seq<char>, i: int) -> int
    decreases s.len() - i,
{
    if i < 0 || i >= s.len() {
        0
    } else if names_goal(s[i], id) {
        i
    } else {
        id_position(s, id, i + 1)
    }
}

/// The position of a serial number that counts from one, within the goals.
pub open spec fn serial(n: nat, len: int) -> int {
    least(
        if n == 0 {
            0
        } else {
            n - 1
        },
        len - 1,
    )
}

/// The first and the last position of a range of goals, given by two serial
/// numbers or else by two ids, in either order.
pub open spec fn range_bounds(s: Seq<Goal>, start: Seq<char>, end: Seq<char>) -> (int, int) {
    let a = without_leading(start, '@');
    let b = without_leading(end, '@');
    let max = usize::MAX as nat;
    let (x, y) = match (parsed(a, max), parsed(b, max)) {
        (Some(m), Some(n)) => (serial(m, s.len() as int), serial(n, s.len() as int)),
        _ => (id_position(s, a, 0), id_position(s, b, 0)),
    };
    if x <= y {
        (x, y)
    } else {
        (y, x)
    }
}

/// The goals of a range, in their order.
pub open spec fn range_goals(goals: Seq<Goal>, start: Seq<char>, end: Seq<char>) -> Seq<Goal> {
    let s = sorted(goals);
    if s.len() == 0 {
        Seq::empty()
    } else {
        let (lo, hi) = range_bounds(s, start, end);
        s.subrange(lo, hi + 1)
    }
}

/// The goals as plugins see them: they list them and assign them to agents.
#[derive(Debug)]
pub struct AppGoalsHost {
    pub goals: Vec<Goal>,
}

impl AppGoalsHost {
    /// The host of some goals.
    pub fn new(goals: Vec<Goal>) -> (r: AppGoalsHost)
        ensures
            r.goals == goals,
    {
        AppGoalsHost { goals }
    }

    /// The goals.
    pub fn list_goals(&self) -> (r: &Vec<Goal>)
        ensures
            *r == self.goals,
    {
        &self.goals
    }

    /// What has to be written before a goal is queued: its metadata with the agent
    /// and the model, where one is given. An error where there is no such goal.
    pub fn assign_to_agent(
        &self,
        goal_id: &str,
        agent: &Option<String>,
        model: &Option<String>,
    ) -> (r: Result<Option<UpdateGoalInput>, String>)
        ensures
            match find_goal(self.goals@, goal_id@) {
                Some(g) => r is Ok && (if agent is None && model is None {
                    r->Ok_0 is None
                } else {
                    r->Ok_0 is Some && r->Ok_0->0 == (UpdateGoalInput {
                        metadata: r->Ok_0->0.metadata,
                        ..no_change()
                    }) && crate::app::sets(
                        r->Ok_0->0.metadata,
                        Some(
                            object_text(
                                chosen_members(
                                    members_or_empty(opt(g.metadata)),
                                    opt(*agent),
                                    opt(*model),
                                ),
                            ),
                        ),
                    )
                }),
                None => r is Err && r->Err_0@ == "goal not found: "@ + goal_id@,
            },
    {
        match goal_with(&self.goals, goal_id) {
            Some(g) => {
                if agent.is_none() && model.is_none() {
                    Ok(None)
                } else {
                    Ok(Some(metadata_update(agent_metadata(&g.metadata, agent, model))))
                }
            },
            None => Err(concat("goal not found: ", goal_id)),
        }
    }

    /// The goals of a range that are to be assigned, in their order.
    pub fn assign_range_to_agent(&self, start: &str, end: &str) -> (r: Vec<String>)
        ensures
            r@ == range_goals(self.goals@, start@, end@).map_values(|g: Goal| g.id),
    {
        range_ids(&self.goals, start, end)
    }
}

fn find_id(s: &Vec<Goal>, id: &str) -> (r: usize)
    ensures
        r == id_position(s@, id@, 0),
        s@.len() > 0 ==> r < s.len(),
{
    let mut i: usize = 0;
    while i < s.len()
        invariant
            i <= s@.len(),
            id_position(s@, id@, 0) == id_position(s@, id@, i as int),
        decreases s@.len() - i,
    {
        let g = s[i].id.as_str();
        if str_eq(g, id) || str_ends_with(g, id) || str_ends_with(id, g) || str_contains(g, id) {
            return i;
        }
        i = i + 1;
    }
    0
}

fn serial_position(n: usize, len: usize) -> (r: usize)
    requires
        len > 0,
    ensures
        r == serial(n as nat, len as int),
        r < len,
{
    let k: usize = if n == 0 {
        0
    } else {
        n - 1
    };
    if k <= len - 1 {
        k
    } else {
        len - 1
    }
}

/// The ids of the goals of a range.
fn range_ids(goals: &Vec<Goal>, start: &str, end: &str) -> (r: Vec<String>)
    ensures
        r@ == range_goals(goals@, start@, end@).map_values(|g: Goal| g.id),
{
    let s = sort_goals(goals);
    let mut out: Vec<String> = Vec::new();
    if s.len() == 0 {
        assert(out@ =~= range_goals(goals@, start@, end@).map_values(|g: Goal| g.id));
        return out;
    }
    let sv = to_chars(start);
    let ev = to_chars(end);
    let av = trim_leading(&sv, '@');
    let bv = trim_leading(&ev, '@');
    let a = from_chars(&av);
    let b = from_chars(&bv);
    let (x, y): (usize, usize) = match (parse_usize(a.as_str()), parse_usize(b.as_str())) {
        (Some(m), Some(n)) => (serial_position(m, s.len()), serial_position(n, s.len())),
        _ => (find_id(&s, a.as_str()), find_id(&s, b.as_str())),
    };
    let lo: usize = if x <= y {
        x
    } else {
        y
    };
    let hi: usize = if x <= y {
        y
    } else {
        x
    };
    let ghost f = |g: Goal| g.id;
    let mut i: usize = lo;
    while i <= hi
        invariant
            lo <= i <= hi + 1,
            hi < s@.len(),
            hi < usize::MAX,
            f == (|g: Goal| g.id),
            out@ =~= s@.subrange(lo as int, i as int).map_values(f),
        decreases hi + 1 - i,
    {
        out.push(s[i].id.clone());
        i = i + 1;
    }
    out
}

/// A range of goals is never empty where there are goals, and with serial
/// numbers it counts from the first goal in order.
pub proof fn law_ranges_are_not_empty(goals: Seq<Goal>, start: Seq<char>, end: Seq<char>)
    requires
        goals.len() > 0,
    ensures
        range_goals(goals, start, end).len() > 0,
        range_goals(goals, start, end).len() <= goals.len(),
{
    crate::tree::law_sorted_is_an_ordered_permutation(goals);
    let s = sorted(goals);
    lemma_id_position(s, without_leading(start, '@'), 0);
    lemma_id_position(s, without_leading(end, '@'), 0);
}

proof fn lemma_id_position(s: Seq<Goal>, id: Seq<char>, i: int)
    requires
        s.len() > 0,
        i >= 0,
    ensures
        0 <= id_position(s, id, i) < s.len(),
    decreases s.len() - i,
{
    if i < s.len() && !names_goal(s[i], id) {
        lemma_id_position(s, id, i + 1);
    }
}

// ---------- runs ----------

/// The members with the chosen agent and model.
pub open spec fn chosen_members(
    base: Map<Seq<char>, Seq<char>>,
    agent: Option<Seq<char>>,
    model: Option<Seq<char>>,
) -> Map<Seq<char>, Seq<char>> {
    let m = match agent {
        Some(a) => base.insert("agent"@, string_text(a)),
        None => base,
    };
    match model {
        Some(x) => m.insert("model"@, string_text(x)),
        None => m,
    }
}

/// The metadata of a goal with the agent and the model chosen for it; all other
/// keys stay.
pub fn agent_metadata(
    metadata: &Option<String>,
    agent: &Option<String>,
    model: &Option<String>,
) -> (r: String)
    ensures
        r@ == object_text(
            chosen_members(members_or_empty(opt(*metadata)), opt(*agent), opt(*model)),
        ),
{
    let mut obj = parse_or_empty(metadata);
    match agent {
        Some(a) => {
            put_string(&mut obj, "agent", a.as_str());
        },
        None => {},
    }
    match model {
        Some(m) => {
            put_string(&mut obj, "model", m.as_str());
        },
        None => {},
    }
    to_text(&obj)
}

/// Choosing an agent keeps every key of the metadata but `agent` and `model`.
pub proof fn law_metadata_is_kept(
    base: Map<Seq<char>, Seq<char>>,
    agent: Option<Seq<char>>,
    model: Option<Seq<char>>,
    k: Seq<char>,
)
    requires
        k != "agent"@,
        k != "model"@,
    ensures
        chosen_members(base, agent, model).contains_key(k) <==> base.contains_key(k),
        base.contains_key(k) ==> chosen_members(base, agent, model)[k] == base[k],
{
}

/// An agent run that is to be started.
#[derive(Debug)]
pub struct AgentRun {
    pub goal_id: String,
    pub title: String,
    pub description: Option<String>,
    pub choice: AgentChoice,
    /// The metadata of the goal that names the choice.
    pub metadata: String,
    /// The directory of the plugin, if it is installed.
    pub plugin_dir: Option<String>,
}

/// The plugin with an id.
pub open spec fn find_plugin(s: Seq<PluginRow>, id: Seq<char>) -> Option<PluginRow>
    decreases s.len(),
{
    if s.len() == 0 {
        None
    } else if s[0].id@ == id {
        Some(s[0])
    } else {
        find_plugin(s.drop_first(), id)
    }
}

/// The plugin with an id.
pub fn plugin_with<'a>(s: &'a Vec<PluginRow>, id: &str) -> (r: Option<&'a PluginRow>)
    ensures
        match r {
            Some(p) => find_plugin(s@, id@) == Some(*p),
            None => find_plugin(s@, id@) is None,
        },
{
    let mut i: usize = 0;
    assert(s@.skip(0) =~= s@);
    while i < s.len()
        invariant
            i <= s@.len(),
            find_plugin(s@, id@) == find_plugin(s@.skip(i as int), id@),
        decreases s@.len() - i,
    {
        assert(s@.skip(i as int)[0] == s@[i as int]);
        assert(s@.skip(i as int).drop_first() =~= s@.skip(i + 1));
        if str_eq(s[i].id.as_str(), id) {
            return Some(&s[i]);
        }
        i = i + 1;
    }
    None
}

/// How a run is carried out: by the Lua plugin in a directory, not at all for
/// want of that directory, or by the binary.
#[derive(Debug)]
pub enum RunTarget {
    Lua { dir: String },
    Missing { error: String },
    Binary { path: String },
}

impl AgentRun {
    /// Decides how the run is carried out.
    pub fn target(&self) -> (r: RunTarget)
        ensures
            match r {
                RunTarget::Lua { dir } => self.choice.is_lua && self.plugin_dir == Some(dir),
                RunTarget::Missing { error } => self.choice.is_lua && self.plugin_dir is None
                    && error@ == "plugin dir not found for "@ + self.choice.plugin@,
                RunTarget::Binary { path } => !self.choice.is_lua && path == self.choice.binary,
            },
    {
        if self.choice.is_lua {
            match &self.plugin_dir {
                Some(d) => RunTarget::Lua { dir: d.clone() },
                None => RunTarget::Missing {
                    error: concat("plugin dir not found for ", self.choice.plugin.as_str()),
                },
            }
        } else {
            RunTarget::Binary { path: self.choice.binary.clone() }
        }
    }
}

/// The label of a choice: the plugin, and the model where it has one.
pub open spec fn choice_label(c: AgentChoice) -> Seq<char> {
    match c.model {
        Some(m) => c.plugin@ + " — "@ + m@,
        None => c.plugin@,
    }
}

fn label_of(c: &AgentChoice) -> (r: String)
    ensures
        r@ == choice_label(*c),
{
    match &c.model {
        Some(m) => concat(concat(c.plugin.as_str(), " — ").as_str(), m.as_str()),
        None => c.plugin.clone(),
    }
}

/// The update that marks a goal as running.
pub fn running_update() -> (r: UpdateGoalInput)
    ensures
        r == (UpdateGoalInput { agent_status: Some(Some(AgentStatus::Running)), ..no_change() }),
{
    UpdateGoalInput {
        agent_status: Some(Some(AgentStatus::Running)),
        ..UpdateGoalInput::default()
    }
}

/// The update that sets the metadata of a goal.
pub fn metadata_update(text: String) -> (r: UpdateGoalInput)
    ensures
        r == (UpdateGoalInput { metadata: Some(Some(text)), ..no_change() }),
{
    UpdateGoalInput { metadata: Some(Some(text)), ..UpdateGoalInput::default() }
}

/// The update that sets the progress of a goal.
pub fn progress_update(text: String) -> (r: UpdateGoalInput)
    ensures
        r == (UpdateGoalInput { agent_progress: Some(Some(text)), ..no_change() }),
{
    UpdateGoalInput { agent_progress: Some(Some(text)), ..UpdateGoalInput::default() }
}

/// The update that ends a run.
pub fn outcome_update(completed: bool, content: String) -> (r: UpdateGoalInput)
    ensures
        r == (UpdateGoalInput {
            agent_status: Some(
                Some(
                    if completed {
                        AgentStatus::Completed
                    } else {
                        AgentStatus::Failed
                    },
                ),
            ),
            agent_result: Some(Some(content)),
            ..no_change()
        }),
{
    let status = if completed {
        AgentStatus::Completed
    } else {
        AgentStatus::Failed
    };
    UpdateGoalInput {
        agent_status: Some(Some(status)),
        agent_result: Some(Some(content)),
        ..UpdateGoalInput::default()
    }
}

// ---------- files of a result ----------

/// Whether a path is a file of this name, in any directory.
pub open spec fn is_file(path: Seq<char>, name: Seq<char>) -> bool {
    path == name || ends_with(path, "/"@ + name)
}

fn file_is(path: &str, name: &str) -> (r: bool)
    ensures
        r == is_file(path@, name@),
{
    str_eq(path, name) || str_ends_with(path, concat("/", name).as_str())
}

/// The patch of the metadata that a file of a result stands for: that of
/// `__metadata__.json` is the file itself, that of `mobile.json` sets the key
/// `mobile` to the file or to its member of that name.
pub open spec fn file_patch(path: Seq<char>, content: Seq<char>) -> Option<Map<Seq<char>, Seq<char>>> {
    if is_file(path, "__metadata__.json"@) {
        if value_of(content) is Some {
            Some(members_or_empty(Some(content)))
        } else {
            None
        }
    } else if is_file(path, "mobile.json"@) {
        match object_of(content) {
            Some(m) => if m.contains_key("mobile"@) {
                Some(single("mobile"@, m["mobile"@]))
            } else {
                mobile_value(content)
            },
            None => mobile_value(content),
        }
    } else {
        None
    }
}

/// The patch that sets the key `mobile` to a whole file.
pub open spec fn mobile_value(content: Seq<char>) -> Option<Map<Seq<char>, Seq<char>>> {
    match value_of(content) {
        Some(v) => Some(single("mobile"@, v)),
        None => None,
    }
}

/// The metadata of a goal after a file of a result, where the file changes it.
pub fn patched_metadata(metadata: &Option<String>, file: &AgentFile) -> (r: Option<String>)
    ensures
        opt(r) == (match file.content {
            Some(c) => match file_patch(file.path@, c@) {
                Some(p) => Some(object_text(merged(members_or_empty(opt(*metadata)), p))),
                None => None,
            },
            None => None,
        }),
{
    let content = match &file.content {
        Some(c) => c.as_str(),
        None => {
            return None;
        },
    };
    let path = file.path.as_str();
    let patch = if file_is(path, "__metadata__.json") {
        match parse_under("patch", content) {
            Some(_) => match parse_object(content) {
                Some(m) => m,
                None => new_object(),
            },
            None => {
                return None;
            },
        }
    } else if file_is(path, "mobile.json") {
        let inner = match parse_object(content) {
            Some(m) => {
                if has_member(&m, "mobile") {
                    let mut p = new_object();
                    put_member(&mut p, "mobile", &m, "mobile");
                    Some(p)
                } else {
                    parse_under("mobile", content)
                }
            },
            None => parse_under("mobile", content),
        };
        match inner {
            Some(p) => p,
            None => {
                return None;
            },
        }
    } else {
        return None;
    };
    let mut meta = parse_or_empty(metadata);
    merge_into(&mut meta, &patch);
    Some(to_text(&meta))
}

// ---------- the log ----------

/// A log with one more line: longer than sixty lines, it keeps the last forty.
pub open spec fn logged(log: Seq<Seq<char>>, line: Seq<char>) -> Seq<Seq<char>> {
    let all = log.push(line);
    if all.len() > 60 {
        all.skip(all.len() - 40)
    } else {
        all
    }
}

/// Adds a line to a log.
pub fn push_log(log: &mut Vec<String>, line: String)
    ensures
        texts(final(log)@) == logged(texts(old(log)@), line@),
{
    let ghost start = texts(log@);
    let ghost text = line@;
    log.push(line);
    assert(texts(log@) =~= start.push(text));
    if log.len() > 60 {
        let n: usize = log.len();
        let mut kept: Vec<String> = Vec::new();
        let mut i: usize = n - 40;
        while i < n
            invariant
                n == log@.len(),
                n > 60,
                n - 40 <= i <= n,
                texts(kept@) =~= texts(log@).subrange(n - 40, i as int),
            decreases n - i,
        {
            let ghost prev = texts(kept@);
            let c = log[i].clone();
            kept.push(c);
            assert(texts(kept@) =~= prev.push(texts(log@)[i as int]));
            i = i + 1;
        }
        assert(texts(kept@) =~= start.push(text).skip(n - 40));
        *log = kept;
    }
}

/// A log never grows beyond sixty lines, and its last line is the newest.
pub proof fn law_log_is_bounded(log: Seq<Seq<char>>, line: Seq<char>)
    requires
        log.len() <= 60,
    ensures
        logged(log, line).len() <= 60,
        logged(log, line).last() == line,
{
}

/// What came from the channel of an agent run.
#[derive(Debug)]
pub enum AgentPoll {
    Progress { message: String, detail: Option<String> },
    /// A result, with the text under which it is stored.
    Done { result_json: String },
    Failed { message: String, detail: Option<String> },
    /// Nothing has come yet.
    Empty,
    /// The run is gone without an end.
    Gone,
}

/// What is to be done about it.
#[derive(Debug)]
pub enum AgentStep {
    /// Write the progress, where a goal is known, and go on reading.
    Note { goal_id: Option<String>, text: String },
    /// Log the error, if one is given, and end the run with this outcome.
    Finish { error: Option<(String, Option<String>)>, completed: bool, content: String },
    /// Stop reading until the next turn.
    Wait,
}

/// Whether an error without detail is logged.
pub open spec fn is_error(error: Option<(String, Option<String>)>, text: Seq<char>) -> bool {
    match error {
        Some((message, detail)) => message@ == text && detail is None,
        None => false,
    }
}

/// A message with its detail.
pub open spec fn with_detail(message: Seq<char>, sep: Seq<char>, detail: Option<Seq<char>>) -> Seq<char> {
    match detail {
        Some(d) => message + sep + d,
        None => message,
    }
}

fn detailed(message: &str, sep: &str, detail: &Option<String>) -> (r: String)
    ensures
        r@ == with_detail(message@, sep@, opt(*detail)),
{
    match detail {
        Some(d) => concat(concat(message, sep).as_str(), d.as_str()),
        None => message.to_owned(),
    }
}

impl App {
    /// Opens the agent picker for a goal, with the choices of the installed plugins
    /// as they were read back.
    pub fn open_agent_picker(&mut self, goal_id: String, installed: &Vec<Installed>)
        requires
            old(self).wf(),
        ensures
            final(self).wf(),
            final(self).installed_plugins@ == rows_installed(installed@),
            final(self).plugin_selected == within(
                old(self).plugin_selected as int,
                installed@.len() as int,
            ),
            if all_offers(installed@).len() == 0 {
                *final(self) == (App {
                    installed_plugins: final(self).installed_plugins,
                    plugin_selected: final(self).plugin_selected,
                    message: final(self).message,
                    ..*old(self)
                }) && says(
                    final(self).message,
                    "no active agent/provider plugins (build the binary or install a Lua plugin)"@,
                )
            } else {
                *final(self) == (App {
                    installed_plugins: final(self).installed_plugins,
                    plugin_selected: final(self).plugin_selected,
                    agent_choices: final(self).agent_choices,
                    agent_selected: 0,
                    mode: Mode::AgentPicker { goal_id },
                    ..*old(self)
                }) && choices_view(final(self).agent_choices@) == all_offers(installed@)
            },
    {
        self.reload_installed_plugins(plugin_rows(installed));
        let choices = agent_choices(installed);
        assert(choices@.len() == all_offers(installed@).len());
        if choices.len() == 0 {
            self.set_message(
                "no active agent/provider plugins (build the binary or install a Lua plugin)",
            );
            return;
        }
        self.agent_choices = choices;
        self.agent_selected = 0;
        self.mode = Mode::AgentPicker { goal_id };
    }

    /// Begins the input of a range.
    pub fn start_assign_range(&mut self)
        requires
            old(self).wf(),
        ensures
            final(self).wf(),
            final(self).input@ == typed("@"@),
            *final(self) == (App { input: final(self).input, mode: Mode::AssignRange, ..*old(self) }),
    {
        self.input.set_text("@".to_string());
        self.mode = Mode::AssignRange;
    }

    /// Ends the input of a range: nothing entered cancels it.
    pub fn commit_assign_range(&mut self) -> (r: Option<(String, String)>)
        requires
            old(self).wf(),
        ensures
            final(self).wf(),
            final(self).input@ == empty_input(),
            *final(self) == (App {
                input: final(self).input,
                mode: Mode::Normal,
                message: final(self).message,
                ..*old(self)
            }),
            ({
                let raw = trimmed(old(self).input.text@);
                if raw.len() == 0 || raw == "@"@ {
                    r is None && says(final(self).message, "assign cancelled — empty range"@)
                } else {
                    r is Some && ({ let p = r->0; (p.0@, p.1@) }) == range_ends(raw) && final(self).message == old(
                        self,
                    ).message
                }
            }),
    {
        let raw = trim(self.input.text.as_str());
        self.mode = Mode::Normal;
        self.input.clear();
        if raw.as_str().is_empty() || str_eq(raw.as_str(), "@") {
            self.set_message("assign cancelled — empty range");
            return None;
        }
        Some(parse_range(raw.as_str()))
    }

    /// After some goals of a range were assigned.
    pub fn range_assigned(&mut self, count: usize, start: &str, end: &str, goals: Vec<Goal>)
        requires
            old(self).wf(),
            unique_ids(goals@),
        ensures
            final(self).wf(),
            if count == 0 {
                *final(self) == (App { message: final(self).message, ..*old(self) }) && says(
                    final(self).message,
                    "assign: no goals matched range"@,
                )
            } else {
                *final(self) == (App {
                    goals,
                    selected: final(self).selected,
                    message: final(self).message,
                    ..*old(self)
                }) && final(self).selected == least(
                    old(self).selected as int,
                    final(self).rows().len() as int,
                ) && says(
                    final(self).message,
                    "assigned "@ + decimal(count as nat) + " goal(s) @"@ + start@ + "-"@ + end@
                        + " to agent"@,
                )
            },
    {
        if count == 0 {
            self.set_message("assign: no goals matched range");
            return;
        }
        let a = concat("assigned ", number(count as u64).as_str());
        let b = concat(a.as_str(), " goal(s) @");
        let c = concat(b.as_str(), start);
        let d = concat(c.as_str(), "-");
        let e = concat(d.as_str(), end);
        let text = concat(e.as_str(), " to agent");
        self.changed(goals, text.as_str());
    }

    /// The run of a goal with the chosen agent; `None` without a choice or a goal.
    pub fn agent_run(&self, goal_id: &str) -> (r: Option<AgentRun>)
        ensures
            match r {
                Some(run) => self.agent_selected < self.agent_choices@.len() && find_goal(
                    self.goals@,
                    goal_id@,
                ) is Some && run_is(
                    run,
                    find_goal(self.goals@, goal_id@)->0,
                    goal_id@,
                    self.agent_choices@[self.agent_selected as int],
                    self.installed_plugins@,
                ),
                None => self.agent_selected >= self.agent_choices@.len() || find_goal(
                    self.goals@,
                    goal_id@,
                ) is None,
            },
    {
        if self.agent_selected >= self.agent_choices.len() {
            return None;
        }
        let choice = self.agent_choices[self.agent_selected].clone();
        match goal_with(&self.goals, goal_id) {
            Some(g) => {
                let agent = Some(choice.plugin.clone());
                let metadata = agent_metadata(&g.metadata, &agent, &choice.model);
                let plugin_dir = match plugin_with(&self.installed_plugins, choice.plugin.as_str()) {
                    Some(p) => Some(p.dir.clone()),
                    None => None,
                };
                Some(
                    AgentRun {
                        goal_id: goal_id.to_owned(),
                        title: g.title.clone(),
                        description: opt_clone(&g.description),
                        choice,
                        metadata,
                        plugin_dir,
                    },
                )
            },
            None => None,
        }
    }

    /// After a run was started.
    pub fn start_agent_run(&mut self, run: &AgentRun, goals: Vec<Goal>)
        requires
            old(self).wf(),
            unique_ids(goals@),
        ensures
            final(self).wf(),
            *final(self) == (App {
                goals,
                selected: final(self).selected,
                agent_waiting: true,
                agent_goal: Some(run.goal_id),
                agent_log: final(self).agent_log,
                message: final(self).message,
                mode: Mode::AgentRunning { goal_id: run.goal_id },
                ..*old(self)
            }),
            final(self).selected == least(
                old(self).selected as int,
                final(self).rows().len() as int,
            ),
            texts(final(self).agent_log@) == seq![choice_label(run.choice)],
            says(final(self).message, "agent running"@),
    {
        self.changed(goals, "agent running");
        let ghost read = *self;
        self.agent_waiting = true;
        self.agent_goal = Some(run.goal_id.clone());
        let mut log: Vec<String> = Vec::new();
        log.push(label_of(&run.choice));
        assert(texts(log@) =~= seq![choice_label(run.choice)]);
        self.agent_log = log;
        self.mode = Mode::AgentRunning { goal_id: run.goal_id.clone() };
        proof {
            crate::goals::lemma_same_rows(read, *self);
        }
    }

    /// Takes in what came from an agent run.
    pub fn poll_agent_events(&mut self, poll: AgentPoll) -> (r: AgentStep)
        requires
            old(self).wf(),
        ensures
            final(self).wf(),
            match poll {
                AgentPoll::Progress { message, detail } => *final(self) == (App {
                    agent_log: final(self).agent_log,
                    ..*old(self)
                }) && texts(final(self).agent_log@) == logged(
                    texts(old(self).agent_log@),
                    with_detail(message@, " — "@, opt(detail)),
                ) && (r matches AgentStep::Note { goal_id, text } && goal_id == old(self).agent_goal
                    && text@ == with_detail(message@, " — "@, opt(detail))),
                AgentPoll::Done { result_json } => *final(self) == (App {
                    agent_waiting: false,
                    ..*old(self)
                }) && (r matches AgentStep::Finish { error, completed, content } && error is None
                    && completed && content == result_json),
                AgentPoll::Failed { message, detail } => *final(self) == (App {
                    agent_waiting: false,
                    ..*old(self)
                }) && (r matches AgentStep::Finish { error, completed, content } && error == Some((message, detail)) && !completed && content@
                    == with_detail(message@, ": "@, opt(detail))),
                AgentPoll::Empty => *final(self) == *old(self) && r is Wait,
                AgentPoll::Gone => *final(self) == (App { agent_waiting: false, ..*old(self) })
                    && (r matches AgentStep::Finish { error, completed, content } && is_error(error, "agent thread died"@) && !completed
                    && content@ == "agent thread died"@),
            },
    {
        match poll {
            AgentPoll::Progress { message, detail } => {
                let line = detailed(message.as_str(), " — ", &detail);
                let text = line.clone();
                push_log(&mut self.agent_log, line);
                AgentStep::Note { goal_id: opt_clone(&self.agent_goal), text }
            },
            AgentPoll::Done { result_json } => {
                self.agent_waiting = false;
                AgentStep::Finish { error: None, completed: true, content: result_json }
            },
            AgentPoll::Failed { message, detail } => {
                self.agent_waiting = false;
                let content = detailed(message.as_str(), ": ", &detail);
                AgentStep::Finish { error: Some((message, detail)), completed: false, content }
            },
            AgentPoll::Empty => AgentStep::Wait,
            AgentPoll::Gone => {
                self.agent_waiting = false;
                AgentStep::Finish {
                    error: Some(("agent thread died".to_string(), None)),
                    completed: false,
                    content: "agent thread died".to_string(),
                }
            },
        }
    }

    /// Ends a run: gives the goal that the outcome is written to, if one is known.
    pub fn finish_agent_run(&mut self) -> (r: Option<String>)
        requires
            old(self).wf(),
        ensures
            final(self).wf(),
            r == old(self).agent_goal,
            *final(self) == (App { agent_goal: None, agent_waiting: false, ..*old(self) }),
    {
        let goal = opt_clone(&self.agent_goal);
        self.agent_goal = None;
        self.agent_waiting = false;
        goal
    }

    /// After the outcome of a run was written; the view of the run is left.
    pub fn agent_run_finished(&mut self, goals: Vec<Goal>, completed: bool)
        requires
            old(self).wf(),
            unique_ids(goals@),
        ensures
            final(self).wf(),
            *final(self) == (App {
                goals,
                selected: final(self).selected,
                message: final(self).message,
                mode: if old(self).mode is AgentRunning {
                    Mode::Normal
                } else {
                    old(self).mode
                },
                ..*old(self)
            }),
            final(self).selected == least(
                old(self).selected as int,
                final(self).rows().len() as int,
            ),
            says(
                final(self).message,
                if completed {
                    "agent completed"@
                } else {
                    "agent failed"@
                },
            ),
    {
        let text = if completed {
            "agent completed"
        } else {
            "agent failed"
        };
        self.changed(goals, text);
        let ghost read = *self;
        let running = match &self.mode {
            Mode::AgentRunning { .. } => true,
            _ => false,
        };
        if running {
            self.mode = Mode::Normal;
        }
        proof {
            crate::goals::lemma_same_rows(read, *self);
        }
    }
}

/// Whether a run is that of a goal with a choice.
pub open spec fn run_is(
    run: AgentRun,
    g: Goal,
    goal_id: Seq<char>,
    choice: AgentChoice,
    plugins: Seq<PluginRow>,
) -> bool {
    &&& run.goal_id@ == goal_id
    &&& run.title == g.title
    &&& run.description == g.description
    &&& run.choice == choice
    &&& run.metadata@ == object_text(
        chosen_members(members_or_empty(opt(g.metadata)), Some(choice.plugin@), opt(choice.model)),
    )
    &&& run.plugin_dir == (match find_plugin(plugins, choice.plugin@) {
        Some(p) => Some(p.dir),
        None => None,
    })
}

// ---------- laws ----------

proof fn lemma_plain_number(n: nat)
    requires
        n <= usize::MAX,
    ensures
        without_leading(decimal(n), '@') == decimal(n),
        without_leading(seq!['@'] + decimal(n), '@') == decimal(n),
        parsed(decimal(n), usize::MAX as nat) == Some(n),
{
    law_numbers_are_read_back(n, usize::MAX as nat);
    let d = decimal(n);
    assert(d.len() > 0 ==> '0' <= d[0] <= '9');
    assert(repeated('@', 0) + d =~= d);
    law_leading_characters_are_cut(0, d, '@');
    assert(repeated('@', 1) + d =~= seq!['@'] + d);
    law_leading_characters_are_cut(1, d, '@');
}

/// Serial numbers count from one in sibling order: the range from `m` to `n` is the `m`th
/// goal, the `n`th, and all between them, and nothing else. The ends may be given in
/// either order, and with an `@` in front.
pub proof fn law_serial_numbers_count_from_one(goals: Seq<Goal>, m: nat, n: nat)
    requires
        1 <= m <= n <= goals.len(),
        goals.len() <= usize::MAX,
    ensures
        range_goals(goals, decimal(m), decimal(n)).len() == n - m + 1,
        forall|i: int|
            0 <= i <= n - m ==> #[trigger] range_goals(goals, decimal(m), decimal(n))[i] == sorted(
                goals,
            )[m - 1 + i],
        range_goals(goals, decimal(n), decimal(m)) == range_goals(goals, decimal(m), decimal(n)),
        range_goals(goals, seq!['@'] + decimal(m), seq!['@'] + decimal(n)) == range_goals(
            goals,
            decimal(m),
            decimal(n),
        ),
        m == 1 && n == goals.len() ==> range_goals(goals, decimal(m), decimal(n)) == sorted(goals),
{
    law_sorted_is_an_ordered_permutation(goals);
    lemma_plain_number(m);
    lemma_plain_number(n);
    let s = sorted(goals);
    assert(range_goals(goals, decimal(m), decimal(n)) == s.subrange(m - 1, n as int));
    assert(s.subrange(0, s.len() as int) =~= s);
}

/// A serial number beyond the goals means the last one, and zero the first.
pub proof fn law_serial_numbers_stay_within(goals: Seq<Goal>, n: nat)
    requires
        goals.len() > 0,
        n <= usize::MAX,
    ensures
        n > goals.len() ==> range_goals(goals, decimal(n), decimal(n)) == seq![sorted(goals).last()],
        n == 0 ==> range_goals(goals, decimal(n), decimal(n)) == seq![sorted(goals)[0]],
{
    law_sorted_is_an_ordered_permutation(goals);
    lemma_plain_number(n);
    let s = sorted(goals);
    assert(n > goals.len() ==> s.subrange(s.len() - 1, s.len() as int) =~= seq![s.last()]);
    assert(s.subrange(0, 1) =~= seq![s[0]]);
}

/// A goal is meant by its id, by a part of it, and by a text that ends in it, and by
/// nothing else.
pub proof fn law_a_goal_is_meant_by_part_of_its_id(g: Goal, id: Seq<char>)
    ensures
        names_goal(g, id) <==> contains(g.id@, id) || ends_with(id, g.id@),
        names_goal(g, g.id@),
{
    if g.id@ == id {
        assert(id.subrange(0, id.len() as int) =~= id);
        assert(occurs_at(g.id@, id, 0));
    }
    if ends_with(g.id@, id) {
        let i = g.id@.len() - id.len();
        assert(g.id@.subrange(i, i + id.len()) =~= g.id@.skip(i));
        assert(occurs_at(g.id@, id, i));
    }
}

proof fn lemma_id_position_is(s: Seq<Goal>, id: Seq<char>, k: int, i: int)
    requires
        0 <= i <= k < s.len(),
        names_goal(s[k], id),
        forall|j: int| 0 <= j < k ==> !names_goal(#[trigger] s[j], id),
    ensures
        id_position(s, id, i) == k,
    decreases k - i,
{
    if i < k {
        assert(!names_goal(s[i], id));
        lemma_id_position_is(s, id, k, i + 1);
    }
}

/// Two ends that are no numbers mean the first goals, in sibling order, that they name;
/// the range is those two and all between them.
pub proof fn law_ranges_by_id_reach_from_goal_to_goal(
    goals: Seq<Goal>,
    a: Seq<char>,
    b: Seq<char>,
    i: int,
    j: int,
)
    requires
        a.len() > 0 ==> a[0] != '@',
        b.len() > 0 ==> b[0] != '@',
        parsed(a, usize::MAX as nat) is None || parsed(b, usize::MAX as nat) is None,
        0 <= i <= j < sorted(goals).len(),
        names_goal(sorted(goals)[i], a),
        names_goal(sorted(goals)[j], b),
        forall|k: int| 0 <= k < i ==> !names_goal(#[trigger] sorted(goals)[k], a),
        forall|k: int| 0 <= k < j ==> !names_goal(#[trigger] sorted(goals)[k], b),
    ensures
        range_goals(goals, a, b) == sorted(goals).subrange(i, j + 1),
        range_goals(goals, b, a) == sorted(goals).subrange(i, j + 1),
{
    let s = sorted(goals);
    lemma_id_position_is(s, a, i, 0);
    lemma_id_position_is(s, b, j, 0);
    assert(repeated('@', 0) + a =~= a);
    assert(repeated('@', 0) + b =~= b);
    law_leading_characters_are_cut(0, a, '@');
    law_leading_characters_are_cut(0, b, '@');
}

proof fn lemma_end_is_trimmed(s: Seq<char>)
    requires
        s.len() > 0 ==> !is_white_space(s[0]) && !is_white_space(s.last()),
    ensures
        trimmed(s) == s,
{
    let e = Seq::<char>::empty();
    law_trimming_cuts_blanks_at_both_ends(e, s, e);
    assert(e + s + e =~= s);
}

/// An entered range is two ends with a hyphen or two points between them, or one goal; an
/// `@` in front and blanks around it do not count.
pub proof fn law_a_range_is_entered_by_its_ends(a: Seq<char>, b: Seq<char>)
    requires
        a.len() > 0 && !is_white_space(a[0]) && !is_white_space(a.last()) && a[0] != '@',
        b.len() > 0 && !is_white_space(b[0]) && !is_white_space(b.last()),
        forall|i: int| 0 <= i < a.len() ==> #[trigger] a[i] != '-' && a[i] != '.',
        forall|i: int| 0 <= i < b.len() ==> #[trigger] b[i] != '-' && b[i] != '.',
    ensures
        range_ends(seq!['@'] + a + seq!['-'] + b) == (a, b),
        range_ends(a + seq!['-'] + b) == (a, b),
        range_ends(seq!['@'] + a + seq!['.', '.'] + b) == (a, b),
        range_ends(seq!['@'] + a) == (a, a),
        range_ends(seq!['@'] + a + seq![' '] + seq!['-'] + seq![' '] + b) == (a, b),
{
    let at = seq!['@'];
    assert(repeated('@', 1) =~= at);
    assert(repeated('@', 0) =~= Seq::empty());
    lemma_end_is_trimmed(a);
    lemma_end_is_trimmed(b);
    let hy = a + seq!['-'] + b;
    law_leading_characters_are_cut(1, hy, '@');
    law_leading_characters_are_cut(0, hy, '@');
    assert(repeated('@', 1) + hy =~= at + a + seq!['-'] + b);
    assert(repeated('@', 0) + hy =~= hy);
    lemma_end_is_trimmed(hy);
    lemma_first_index_is(hy, '-', a.len() as int);
    assert(hy.take(a.len() as int) =~= a);
    assert(hy.skip(a.len() as int + 1) =~= b);
    let dots = a + seq!['.', '.'] + b;
    law_leading_characters_are_cut(1, dots, '@');
    assert(repeated('@', 1) + dots =~= at + a + seq!['.', '.'] + b);
    lemma_end_is_trimmed(dots);
    lemma_first_index(dots, '-');
    reveal_strlit("..");
    assert(".."@ =~= seq!['.', '.']);
    law_cuts_are_made_at_the_first_occurrence(dots, ".."@, 0);
    let n = a.len() as int;
    assert(dots.subrange(n, n + 2) =~= ".."@);
    assert(occurs_at(dots, ".."@, n));
    let k = next_occurrence(dots, ".."@, 0)->0;
    assert(dots.subrange(k, k + 2)[0] == dots[k]);
    assert(k == n);
    assert(dots.take(n) =~= a);
    assert(dots.skip(n + 2) =~= b);
    law_leading_characters_are_cut(1, a, '@');
    assert(repeated('@', 1) + a =~= at + a);
    lemma_first_index(a, '-');
    law_cuts_are_made_at_the_first_occurrence(a, ".."@, 0);
    if next_occurrence(a, ".."@, 0) is Some {
        let k = next_occurrence(a, ".."@, 0)->0;
        assert(a.subrange(k, k + 2)[0] == a[k]);
    }
    let wide = a + seq![' '] + seq!['-'] + seq![' '] + b;
    law_leading_characters_are_cut(1, wide, '@');
    assert(repeated('@', 1) + wide =~= at + a + seq![' '] + seq!['-'] + seq![' '] + b);
    lemma_end_is_trimmed(wide);
    lemma_first_index_is(wide, '-', n + 1);
    assert(wide.take(n + 1) =~= Seq::<char>::empty() + a + seq![' ']);
    assert(wide.skip(n + 2) =~= seq![' '] + b + Seq::<char>::empty());
    law_trimming_cuts_blanks_at_both_ends(Seq::empty(), a, seq![' ']);
    law_trimming_cuts_blanks_at_both_ends(seq![' '], b, Seq::empty());
}

/// Whether a choice is one that an installed plugin offers: it is active, a provider or an
/// agent, written in Lua or built, and the choice names it, and one of its models where it
/// is a provider that lists some.
pub open spec fn is_offer(p: Installed, c: ChoiceView) -> bool {
    &&& p.row.active
    &&& p.manifest is Some
    &&& p.manifest->0.provider || p.manifest->0.agent
    &&& p.manifest->0.is_lua || p.manifest->0.binary_exists
    &&& c.plugin == p.manifest->0.name@
    &&& c.binary == p.manifest->0.binary@
    &&& c.is_lua == p.manifest->0.is_lua
    &&& match c.model {
        Some(x) => p.manifest->0.provider && p.manifest->0.models is Some && texts(
            p.manifest->0.models->0@,
        ).contains(x),
        None => !p.manifest->0.provider || p.manifest->0.models is None
            || p.manifest->0.models->0@.len() == 0,
    }
}

/// The choices of agents are those of the active plugins that can run goals, one for each
/// model: there is no other choice, and each such plugin has one.
pub proof fn law_choices_are_of_active_runners(s: Seq<Installed>, c: ChoiceView, k: int)
    ensures
        all_offers(s).contains(c) ==> exists|i: int|
            0 <= i < s.len() && is_offer(#[trigger] s[i], c),
        0 <= k < s.len() && is_offer(s[k], c) ==> exists|j: int|
            0 <= j < all_offers(s).len() && (#[trigger] all_offers(s)[j]).plugin == c.plugin
                && all_offers(s)[j].model == c.model && all_offers(s)[j].binary == c.binary
                && all_offers(s)[j].is_lua == c.is_lua,
    decreases s.len(),
{
    if s.len() > 0 {
        let p = s.last();
        let t = s.drop_last();
        law_choices_are_of_active_runners(t, c, k);
        let old = all_offers(t);
        let mine = if runs_goals(p) {
            let m = p.manifest->0;
            offers(m, config_text(defaulted(p.settings@, fields_of(m.ui))))
        } else {
            Seq::empty()
        };
        assert(all_offers(s) =~= old + mine);
        if all_offers(s).contains(c) {
            let j = choose|j: int| 0 <= j < all_offers(s).len() && all_offers(s)[j] == c;
            if j < old.len() {
                assert(old[j] == c);
                let i = choose|i: int| 0 <= i < t.len() && is_offer(#[trigger] t[i], c);
                assert(is_offer(s[i], c));
            } else {
                assert(mine[j - old.len()] == c);
                if c.model is Some {
                    assert(texts(p.manifest->0.models->0@)[j - old.len()] == c.model->0);
                }
                assert(is_offer(s[s.len() - 1], c));
            }
        }
        if 0 <= k < s.len() && is_offer(s[k], c) {
            if k < t.len() {
                assert(t[k] == s[k]);
                let j = choose|j: int|
                    0 <= j < old.len() && (#[trigger] old[j]).plugin == c.plugin && old[j].model
                        == c.model && old[j].binary == c.binary && old[j].is_lua == c.is_lua;
                assert(all_offers(s)[j] == old[j]);
            } else {
                let i = match c.model {
                    Some(x) => choose|i: int|
                        0 <= i < texts(p.manifest->0.models->0@).len() && texts(
                            p.manifest->0.models->0@,
                        )[i] == x,
                    None => 0,
                };
                assert(all_offers(s)[old.len() + i] == mine[i]);
            }
        }
    }
}

/// A setting that was never saved takes the default of the first field of its key that has
/// one; defaults add no other setting.
pub proof fn law_the_first_default_fills_in(
    m: Map<Seq<char>, Seq<char>>,
    fields: Seq<UiField>,
    k: Seq<char>,
    i: int,
)
    ensures
        !m.contains_key(k) && 0 <= i < fields.len() && fields[i].key@ == k && fields[i].default is Some
            && (forall|j: int|
            0 <= j < i ==> (#[trigger] fields[j]).key@ != k || fields[j].default is None) ==> defaulted(
            m,
            fields,
        ).contains_key(k) && defaulted(m, fields)[k] == fields[i].default->0@,
        !m.contains_key(k) && (forall|j: int|
            0 <= j < fields.len() ==> (#[trigger] fields[j]).key@ != k || fields[j].default is None)
            ==> !defaulted(m, fields).contains_key(k),
    decreases fields.len(),
{
    if fields.len() > 0 {
        let t = fields.drop_last();
        law_the_first_default_fills_in(m, t, k, i);
        assert(forall|j: int| 0 <= j < t.len() ==> t[j] == #[trigger] fields[j]);
        if !m.contains_key(k) && 0 <= i < fields.len() && fields[i].key@ == k && fields[i].default is Some
            && (forall|j: int|
            0 <= j < i ==> (#[trigger] fields[j]).key@ != k || fields[j].default is None) {
            if i == t.len() {
                assert forall|j: int| 0 <= j < t.len() implies (#[trigger] t[j]).key@ != k
                    || t[j].default is None by {
                    assert(fields[j].key@ != k || fields[j].default is None);
                }
            }
        }
        if !m.contains_key(k) && (forall|j: int|
            0 <= j < fields.len() ==> (#[trigger] fields[j]).key@ != k || fields[j].default is None) {
            assert(fields[fields.len() - 1].key@ != k || fields[fields.len() - 1].default is None);
            assert forall|j: int| 0 <= j < t.len() implies (#[trigger] t[j]).key@ != k
                || t[j].default is None by {
                assert(fields[j].key@ != k || fields[j].default is None);
            }
        }
    }
}

/// The chosen agent and model stand in the metadata under their keys; where none is given,
/// what was there stays.
pub proof fn law_the_choice_is_in_the_metadata(
    base: Map<Seq<char>, Seq<char>>,
    agent: Option<Seq<char>>,
    model: Option<Seq<char>>,
)
    ensures
        agent is Some ==> chosen_members(base, agent, model).contains_key("agent"@)
            && chosen_members(base, agent, model)["agent"@] == string_text(agent->0),
        model is Some ==> chosen_members(base, agent, model).contains_key("model"@)
            && chosen_members(base, agent, model)["model"@] == string_text(model->0),
        agent is None && base.contains_key("agent"@) ==> chosen_members(
            base,
            agent,
            model,
        )["agent"@] == base["agent"@],
        model is None && base.contains_key("model"@) ==> chosen_members(
            base,
            agent,
            model,
        )["model"@] == base["model"@],
{
    reveal_strlit("agent");
    reveal_strlit("model");
    assert("agent"@[0] != "model"@[0]);
}

/// A plugin is found by its id, exactly where there is one with it: the first.
pub proof fn law_plugins_are_found_by_id(s: Seq<PluginRow>, id: Seq<char>)
    ensures
        match find_plugin(s, id) {
            Some(p) => exists|i: int|
                0 <= i < s.len() && #[trigger] s[i] == p && p.id@ == id && forall|j: int|
                    0 <= j < i ==> (#[trigger] s[j]).id@ != id,
            None => forall|i: int| 0 <= i < s.len() ==> (#[trigger] s[i]).id@ != id,
        },
    decreases s.len(),
{
    if s.len() > 0 {
        let t = s.drop_first();
        if s[0].id@ == id {
            assert(s[0].id@ == id);
        } else {
            law_plugins_are_found_by_id(t, id);
            assert(forall|j: int| 0 < j < s.len() ==> #[trigger] s[j] == t[j - 1]);
            if find_plugin(t, id) is Some {
                let p = find_plugin(t, id)->0;
                let i = choose|i: int|
                    0 <= i < t.len() && #[trigger] t[i] == p && p.id@ == id && forall|j: int|
                        0 <= j < i ==> (#[trigger] t[j]).id@ != id;
                assert(s[i + 1] == p);
                assert forall|j: int| 0 <= j < i + 1 implies (#[trigger] s[j]).id@ != id by {
                    if j > 0 {
                        assert(t[j - 1].id@ != id);
                    }
                }
            } else {
                assert forall|i: int| 0 <= i < s.len() implies (#[trigger] s[i]).id@ != id by {
                    if i > 0 {
                        assert(t[i - 1].id@ != id);
                    }
                }
            }
        }
    }
}

/// The log ends in its newest lines, in order; up to sixty lines none is dropped, and
/// beyond that the last forty stay.
pub proof fn law_the_log_keeps_the_newest_lines(log: Seq<Seq<char>>, line: Seq<char>, i: int)
    requires
        0 <= i < logged(log, line).len(),
    ensures
        logged(log, line).len() == if log.len() < 60 {
            log.len() + 1
        } else {
            40
        },
        logged(log, line)[logged(log, line).len() - 1 - i] == log.push(line)[log.len() - i],
{
}

/// Only the two files of a result that are meant for it change the metadata of a goal, in
/// whatever directory they stand: `__metadata__.json` by all its members, `mobile.json` by
/// the one key `mobile`.
pub proof fn law_two_files_change_the_metadata(dir: Seq<char>, path: Seq<char>, content: Seq<char>)
    ensures
        file_patch(path, content) is Some ==> path == "__metadata__.json"@ || path == "mobile.json"@
            || ends_with(path, "/__metadata__.json"@) || ends_with(path, "/mobile.json"@),
        object_of(content) is Some && value_of(content) is Some ==> file_patch(
            "__metadata__.json"@,
            content,
        ) == Some(object_of(content)->0) && file_patch(dir + "/__metadata__.json"@, content) == Some(
            object_of(content)->0,
        ),
        object_of(content) is Some && value_of(content) is Some ==> file_patch(
            "mobile.json"@,
            content,
        ) is Some && forall|k: Seq<char>| #[trigger]
            file_patch("mobile.json"@, content)->0.contains_key(k) ==> k == "mobile"@,
        object_of(content) is Some && object_of(content)->0.contains_key("mobile"@) ==> file_patch(
            dir + "/mobile.json"@,
            content,
        ) is Some && file_patch(dir + "/mobile.json"@, content)->0["mobile"@]
            == object_of(content)->0["mobile"@],
        object_of(content) is None && value_of(content) is Some ==> file_patch(
            "mobile.json"@,
            content,
        ) is Some && file_patch("mobile.json"@, content)->0["mobile"@] == value_of(content)->0,
{
    reveal_strlit("/");
    reveal_strlit("__metadata__.json");
    reveal_strlit("mobile.json");
    reveal_strlit("/__metadata__.json");
    reveal_strlit("/mobile.json");
    assert("/"@ + "__metadata__.json"@ =~= "/__metadata__.json"@);
    assert("/"@ + "mobile.json"@ =~= "/mobile.json"@);
    let a = dir + "/__metadata__.json"@;
    let b = dir + "/mobile.json"@;
    assert(a.skip(dir.len() as int) =~= "/__metadata__.json"@);
    assert(b.skip(dir.len() as int) =~= "/mobile.json"@);
    assert(is_file(a, "__metadata__.json"@));
    assert(is_file(b, "mobile.json"@));
    assert("mobile.json"@[0] != "__metadata__.json"@[0]);
    assert("mobile.json"@.len() < "/__metadata__.json"@.len());
    assert(b != "__metadata__.json"@) by {
        if b == "__metadata__.json"@ {
            assert(b[dir.len() as int] == '/');
            assert(forall|i: int|
                0 <= i < "__metadata__.json"@.len() ==> "__metadata__.json"@[i] != '/');
        }
    }
    assert(!ends_with(b, "/__metadata__.json"@)) by {
        if ends_with(b, "/__metadata__.json"@) {
            let t = b.skip(b.len() - 18);
            assert(t == "/__metadata__.json"@);
            assert(t[17 - 10] == b[b.len() - 11]);
            assert(b[b.len() - 11] == b[dir.len() as int + 1]);
            assert(b[dir.len() as int + 1] == 'm');
            assert("/__metadata__.json"@[7] == 'd');
        }
    }
}

/// A run is that of its goal and its choice: it carries the goal's title and description,
/// names the plugin and the model in the metadata, and runs where that plugin is installed.
pub proof fn law_a_run_is_that_of_its_choice(
    run: AgentRun,
    g: Goal,
    goal_id: Seq<char>,
    choice: AgentChoice,
    plugins: Seq<PluginRow>,
)
    requires
        run_is(run, g, goal_id, choice, plugins),
    ensures
        run.goal_id@ == goal_id && run.title == g.title && run.description == g.description
            && run.choice == choice,
        exists|m: Map<Seq<char>, Seq<char>>|
            run.metadata@ == #[trigger] object_text(m) && m.contains_key("agent"@) && m["agent"@]
                == string_text(choice.plugin@) && (choice.model is Some ==> m.contains_key("model"@)
                && m["model"@] == string_text(choice.model->0@)),
        forall|i: int|
            0 <= i < plugins.len() && (#[trigger] plugins[i]).id@ == choice.plugin@
                ==> run.plugin_dir is Some,
        run.plugin_dir is Some ==> exists|i: int|
            0 <= i < plugins.len() && (#[trigger] plugins[i]).id@ == choice.plugin@
                && plugins[i].dir == run.plugin_dir->0,
{
    let base = members_or_empty(opt(g.metadata));
    law_the_choice_is_in_the_metadata(base, Some(choice.plugin@), opt(choice.model));
    law_plugins_are_found_by_id(plugins, choice.plugin@);
    let m = chosen_members(base, Some(choice.plugin@), opt(choice.model));
    assert(run.metadata@ == object_text(m));
}

} // verus!
