//! The plugin manager: what a query means, how an install proceeds, and what a
//! task reports.

use crate::json::{
    begins_with_brace, has_member, member_is_object, member_string, member_text, members, object_of,
    parse_object, string_of,
};
use crate::text::{
    after_prefix, ascii_lower, concat, contains, cut, decimal, ends_with, from_chars, is_white_space,
    join, joined, law_a_text_holds_its_parts, law_joining_adds_up,
    law_trimming_cuts_blanks_at_both_ends, lemma_first_index, lemma_first_index_is, lower_chars,
    number, opt, pad_left, padded_left, split, split_chars, split_once, starts_with,
    str_contains, str_eq, strip_prefix, take, texts, to_chars, trim, trim_chars, trim_trailing, trimmed, truncate,
    truncated, without_trailing,
};
use crate::types::Manifest;
use vstd::prelude::*;

verus! {

/// One matching repository.
#[derive(Debug)]
pub struct RepoInfo {
    pub full_name: String,
    pub description: Option<String>,
    pub stars: u64,
}

impl Clone for RepoInfo {
    fn clone(&self) -> (r: RepoInfo)
        ensures
            r == *self,
    {
        RepoInfo {
            full_name: self.full_name.clone(),
            description: crate::text::opt_clone(&self.description),
            stars: self.stars,
        }
    }
}

/// The star count, the name and, where there is one, the start of the
/// description.
pub open spec fn summary_of(r: RepoInfo) -> Seq<char> {
    let head = padded_left(decimal(r.stars as nat), 4) + "★  "@ + r.full_name@;
    match r.description {
        Some(d) => if d@.len() > 0 {
            head + " — "@ + truncated(d@, 48)
        } else {
            head
        },
        None => head,
    }
}

impl RepoInfo {
    /// The line of the result list.
    pub fn summary(&self) -> (r: String)
        ensures
            r@ == summary_of(*self),
    {
        let stars = pad_left(number(self.stars).as_str(), 4);
        let head = concat(concat(stars.as_str(), "★  ").as_str(), self.full_name.as_str());
        match &self.description {
            Some(d) => {
                if !d.as_str().is_empty() {
                    let tail = truncate(d.as_str(), 48);
                    concat(concat(head.as_str(), " — ").as_str(), tail.as_str())
                } else {
                    head
                }
            },
            None => head,
        }
    }
}

/// A theme pack of a plugin. `colors_json` is the text of its `colors` object.
#[derive(Debug)]
pub struct ThemeFile {
    pub id: String,
    pub name: String,
    pub colors_json: String,
}

/// What a theme pack holds.
pub struct ThemeView {
    pub id: Seq<char>,
    pub name: Seq<char>,
    pub colors_json: Seq<char>,
}

impl View for ThemeFile {
    type V = ThemeView;

    open spec fn view(&self) -> ThemeView {
        ThemeView { id: self.id@, name: self.name@, colors_json: self.colors_json@ }
    }
}

/// The theme pack that the text of a file holds: an object with the strings
/// `id` and `name` and the object `colors`.
pub open spec fn theme_in(text: Seq<char>) -> Option<ThemeView> {
    match object_of(text) {
        Some(m) => theme_of(m),
        None => None,
    }
}

/// The theme pack that the members of an object make up.
pub open spec fn theme_of(m: Map<Seq<char>, Seq<char>>) -> Option<ThemeView> {
    if m.contains_key("id"@) && m.contains_key("name"@) && m.contains_key("colors"@) && string_of(
        m["id"@],
    ) is Some && string_of(m["name"@]) is Some && begins_with_brace(m["colors"@]) {
        Some(
            ThemeView {
                id: string_of(m["id"@])->0,
                name: string_of(m["name"@])->0,
                colors_json: m["colors"@],
            },
        )
    } else {
        None
    }
}

/// Takes the theme pack out of an object.
pub fn theme_from_object(
    m: &serde_json::Map<String, serde_json::Value>,
) -> (r: Option<ThemeFile>)
    ensures
        match r {
            Some(t) => theme_of(members(*m)) == Some(t@),
            None => theme_of(members(*m)) is None,
        },
{
    if !has_member(m, "colors") {
        return None;
    }
    match (member_string(m, "id"), member_string(m, "name")) {
        (Some(id), Some(name)) => {
            if member_is_object(m, "colors") {
                Some(ThemeFile { id, name, colors_json: member_text(m, "colors") })
            } else {
                None
            }
        },
        _ => None,
    }
}

/// Reads the text of a theme file; `None` for a file that is none.
pub fn theme_file(text: &str) -> (r: Option<ThemeFile>)
    ensures
        match r {
            Some(t) => theme_in(text@) == Some(t@),
            None => theme_in(text@) is None,
        },
{
    match parse_object(text) {
        Some(m) => theme_from_object(&m),
        None => None,
    }
}

// ---------- tasks ----------

/// What a task of the plugin manager reports.
#[derive(Debug)]
pub enum TaskEvent {
    /// A line for the activity log.
    Log(String),
    /// A search ended with these repositories.
    Results(Vec<RepoInfo>),
    /// A search found nothing.
    NotFound(String),
    /// The task failed.
    Error(String),
    /// A repository was fetched and its manifest is valid.
    Installed { name: String, dir: String, themes: Vec<ThemeFile> },
    /// One plugin of an update was updated.
    Updated { name: String, themes: Vec<ThemeFile> },
    /// An update of all plugins ended.
    UpdateFinished { updated: usize, failed: Vec<String> },
}

/// What a report says.
pub enum EventView {
    Log(Seq<char>),
    Results(Seq<RepoInfo>),
    NotFound(Seq<char>),
    Error(Seq<char>),
    Installed { name: Seq<char>, dir: Seq<char>, themes: Seq<ThemeFile> },
    Updated { name: Seq<char>, themes: Seq<ThemeFile> },
    UpdateFinished { updated: nat, failed: Seq<Seq<char>> },
}

impl View for TaskEvent {
    type V = EventView;

    open spec fn view(&self) -> EventView {
        match self {
            TaskEvent::Log(s) => EventView::Log(s@),
            TaskEvent::Results(r) => EventView::Results(r@),
            TaskEvent::NotFound(s) => EventView::NotFound(s@),
            TaskEvent::Error(s) => EventView::Error(s@),
            TaskEvent::Installed { name, dir, themes } => EventView::Installed {
                name: name@,
                dir: dir@,
                themes: themes@,
            },
            TaskEvent::Updated { name, themes } => EventView::Updated {
                name: name@,
                themes: themes@,
            },
            TaskEvent::UpdateFinished { updated, failed } => EventView::UpdateFinished {
                updated: *updated as nat,
                failed: texts(failed@),
            },
        }
    }
}

/// What some reports say.
pub open spec fn event_views(s: Seq<TaskEvent>) -> Seq<EventView> {
    s.map_values(|e: TaskEvent| e@)
}

fn report(out: &mut Vec<TaskEvent>, e: TaskEvent)
    ensures
        event_views(final(out)@) == event_views(old(out)@).push(e@),
{
    let ghost said = e@;
    out.push(e);
    assert(event_views(out@) =~= event_views(old(out)@).push(said));
}

/// How many updates succeeded, among the outcomes of some plugins: each with its name,
/// and why its update failed, if it did.
pub open spec fn update_count(s: Seq<(String, Option<String>)>) -> nat
    decreases s.len(),
{
    if s.len() == 0 {
        0
    } else {
        update_count(s.drop_last()) + (if s.last().1 is None {
            1nat
        } else {
            0
        })
    }
}

/// The failed updates among the outcomes of some plugins, in order.
pub open spec fn update_failures(s: Seq<(String, Option<String>)>) -> Seq<Seq<char>>
    decreases s.len(),
{
    if s.len() == 0 {
        Seq::empty()
    } else {
        let before = update_failures(s.drop_last());
        match s.last().1 {
            Some(e) => before.push(s.last().0@ + ": "@ + e@),
            None => before,
        }
    }
}

/// The report of one plugin's update, where it succeeded; `themes` are the packs that
/// the plugin holds now.
pub fn update_report(name: &str, failure: &Option<String>, themes: Vec<ThemeFile>) -> (r: Option<
    TaskEvent,
>)
    ensures
        match r {
            Some(e) => *failure is None && e@ == (EventView::Updated {
                name: name@,
                themes: themes@,
            }),
            None => *failure is Some,
        },
{
    match failure {
        Some(_) => None,
        None => Some(TaskEvent::Updated { name: name.to_owned(), themes }),
    }
}

/// The report after all plugins were updated: how many updates succeeded, and which
/// failed.
pub fn update_summary(outcomes: &Vec<(String, Option<String>)>) -> (r: TaskEvent)
    ensures
        r@ == (EventView::UpdateFinished {
            updated: update_count(outcomes@),
            failed: update_failures(outcomes@),
        }),
{
    let mut updated: usize = 0;
    let mut failed: Vec<String> = Vec::new();
    assert(texts(failed@) =~= Seq::empty());
    assert(outcomes@.take(0) =~= Seq::empty());
    for i in 0..outcomes.len()
        invariant
            updated <= i,
            updated == update_count(outcomes@.take(i as int)),
            texts(failed@) == update_failures(outcomes@.take(i as int)),
    {
        assert(outcomes@.take(i + 1).drop_last() =~= outcomes@.take(i as int));
        assert(outcomes@.take(i + 1).last() == outcomes@[i as int]);
        let ghost before = texts(failed@);
        match &outcomes[i].1 {
            Some(e) => {
                let head = concat(outcomes[i].0.as_str(), ": ");
                let line = concat(head.as_str(), e.as_str());
                let ghost text = line@;
                failed.push(line);
                assert(texts(failed@) =~= before.push(text));
            },
            None => {
                updated = updated + 1;
            },
        }
    }
    assert(outcomes@.take(outcomes@.len() as int) =~= outcomes@);
    TaskEvent::UpdateFinished { updated, failed }
}

/// Every plugin is counted as updated or listed as failed, and none as both.
pub proof fn law_every_update_is_accounted_for(outcomes: Seq<(String, Option<String>)>)
    ensures
        update_count(outcomes) + update_failures(outcomes).len() == outcomes.len(),
    decreases outcomes.len(),
{
    if outcomes.len() > 0 {
        law_every_update_is_accounted_for(outcomes.drop_last());
    }
}

/// The state of the task that the popup shows.
#[derive(Debug)]
pub enum TaskState {
    Idle,
    /// The task runs; the activity log so far.
    Working(Vec<String>),
    Results(Vec<RepoInfo>),
    NotFound(String),
    Error(String),
    Installed { name: String, dir: String, theme_count: usize },
}

impl Default for TaskState {
    fn default() -> (r: TaskState)
        ensures
            r is Idle,
    {
        TaskState::Idle
    }
}

/// How a search ended.
#[derive(Debug)]
pub enum SearchOutcome {
    Results(Vec<RepoInfo>),
    NotFound(String),
    Error(String),
}

/// The report of how a search ended.
pub fn forward(outcome: SearchOutcome) -> (r: TaskEvent)
    ensures
        r@ == (match outcome {
            SearchOutcome::Results(x) => EventView::Results(x@),
            SearchOutcome::NotFound(q) => EventView::NotFound(q@),
            SearchOutcome::Error(e) => EventView::Error(e@),
        }),
{
    match outcome {
        SearchOutcome::Results(x) => TaskEvent::Results(x),
        SearchOutcome::NotFound(q) => TaskEvent::NotFound(q),
        SearchOutcome::Error(e) => TaskEvent::Error(e),
    }
}

/// How the search command went: it could not be started, it failed with this
/// output, its output could not be read, or it listed these repositories.
#[derive(Debug)]
pub enum SearchRun {
    Missing,
    Failed(String),
    Unreadable(String),
    Listed(Vec<RepoInfo>),
}

/// A repository without an empty description.
pub open spec fn without_blank(r: RepoInfo) -> RepoInfo {
    match r.description {
        Some(d) => if d@.len() == 0 {
            RepoInfo { description: None, ..r }
        } else {
            r
        },
        None => r,
    }
}

fn drop_blank(r: &RepoInfo) -> (out: RepoInfo)
    ensures
        out == without_blank(*r),
{
    let blank = match &r.description {
        Some(d) => d.as_str().is_empty(),
        None => false,
    };
    let mut c = r.clone();
    if blank {
        c.description = None;
    }
    c
}

/// What a search for some terms ended with.
pub fn search_outcome(terms: &str, run: SearchRun) -> (r: SearchOutcome)
    ensures
        match run {
            SearchRun::Missing => r matches SearchOutcome::Error(e) && e@
                == "gh CLI not found — install the GitHub CLI to search repos"@,
            SearchRun::Failed(stderr) => r matches SearchOutcome::Error(e) && e@
                == "gh search failed: "@ + truncated(stderr@, 80),
            SearchRun::Unreadable(why) => r matches SearchOutcome::Error(e) && e@
                == "unexpected gh output: "@ + why@,
            SearchRun::Listed(repos) => if repos@.len() == 0 {
                r matches SearchOutcome::NotFound(q) && q@ == terms@
            } else {
                r matches SearchOutcome::Results(out) && out@ == repos@.map_values(
                    |x: RepoInfo| without_blank(x),
                )
            },
        },
{
    match run {
        SearchRun::Missing => SearchOutcome::Error(
            "gh CLI not found — install the GitHub CLI to search repos".to_string(),
        ),
        SearchRun::Failed(stderr) => SearchOutcome::Error(
            concat("gh search failed: ", truncate(stderr.as_str(), 80).as_str()),
        ),
        SearchRun::Unreadable(why) => SearchOutcome::Error(
            concat("unexpected gh output: ", why.as_str()),
        ),
        SearchRun::Listed(repos) => {
            if repos.len() == 0 {
                return SearchOutcome::NotFound(terms.to_owned());
            }
            let mut out: Vec<RepoInfo> = Vec::new();
            for i in 0..repos.len()
                invariant
                    out@ =~= repos@.take(i as int).map_values(|x: RepoInfo| without_blank(x)),
            {
                out.push(drop_blank(&repos[i]));
            }
            assert(repos@.take(repos@.len() as int) =~= repos@);
            SearchOutcome::Results(out)
        },
    }
}

// ---------- queries ----------

/// What follows the host in a link; `None` for a link to another host, and for a text
/// without a host.
pub open spec fn after_host(q: Seq<char>) -> Option<Seq<char>> {
    let rest = match after_prefix(q, "https://"@) {
        Some(t) => Some(t),
        None => after_prefix(q, "http://"@),
    };
    match rest {
        Some(t) => {
            let bare = match after_prefix(t, "www."@) {
                Some(u) => u,
                None => t,
            };
            match split_once(bare, '/') {
                Some((host, tail)) => if ascii_lower(host) == "github.com"@ {
                    Some(tail)
                } else {
                    None
                },
                None => None,
            }
        },
        None => after_prefix(q, "github.com/"@),
    }
}

/// Whether a text is a link: it begins with a scheme or with the host.
pub open spec fn is_link(q: Seq<char>) -> bool {
    after_prefix(q, "https://"@) is Some || after_prefix(q, "http://"@) is Some || after_prefix(
        q,
        "github.com/"@,
    ) is Some
}

/// The owner and the repository that a path begins with.
pub open spec fn owner_repo(path: Seq<char>) -> Option<Seq<char>> {
    let segs = split(path, '/');
    if segs.len() < 2 {
        None
    } else {
        let owner = trimmed(segs[0]);
        let repo = trimmed(segs[1]);
        let name = without_trailing(repo, ".git"@);
        if owner.len() == 0 || repo.len() == 0 || name.len() == 0 {
            None
        } else {
            Some(owner + "/"@ + name)
        }
    }
}

/// The repository that a query names: a link to GitHub, with whatever follows the
/// repository, or a bare `owner/repo`. Any other query is a search.
pub open spec fn repo_of(q: Seq<char>) -> Option<Seq<char>> {
    let t = trimmed(q);
    if is_link(t) {
        match after_host(t) {
            Some(path) => owner_repo(path),
            None => None,
        }
    } else if split(t, '/').len() == 2 {
        owner_repo(t)
    } else {
        None
    }
}

/// A link with a scheme to another host is a search, and so is a text without a scheme
/// and without `github.com/` that is more or less than an owner and a repository.
pub proof fn law_other_hosts_are_searched(q: Seq<char>)
    ensures
        is_link(trimmed(q)) && after_host(trimmed(q)) is None ==> repo_of(q) is None,
        !is_link(trimmed(q)) && split(trimmed(q), '/').len() != 2 ==> repo_of(q) is None,
{
}

fn path_after_host(q: &Vec<char>) -> (r: Option<Vec<char>>)
    ensures
        match r {
            Some(v) => after_host(q@) == Some(v@),
            None => after_host(q@) is None,
        },
{
    let rest = match strip_prefix(q, "https://") {
        Some(t) => Some(t),
        None => strip_prefix(q, "http://"),
    };
    match rest {
        Some(t) => {
            let bare = match strip_prefix(&t, "www.") {
                Some(u) => u,
                None => t,
            };
            match cut(&bare, '/') {
                Some((host, tail)) => {
                    let low = lower_chars(&host);
                    let word = from_chars(&low);
                    if str_eq(word.as_str(), "github.com") {
                        Some(tail)
                    } else {
                        None
                    }
                },
                None => None,
            }
        },
        None => strip_prefix(q, "github.com/"),
    }
}

fn link(q: &Vec<char>) -> (r: bool)
    ensures
        r == is_link(q@),
{
    strip_prefix(q, "https://").is_some() || strip_prefix(q, "http://").is_some() || strip_prefix(
        q,
        "github.com/",
    ).is_some()
}

fn slug(path: &Vec<char>) -> (r: Option<String>)
    ensures
        opt(r) == owner_repo(path@),
{
    let segs = split_chars(path, '/');
    assert(split(path@, '/').len() == segs@.len());
    if segs.len() < 2 {
        return None;
    }
    let owner = trim_chars(&segs[0]);
    let repo = trim_chars(&segs[1]);
    assert(split(path@, '/')[0] == segs@[0]@);
    assert(split(path@, '/')[1] == segs@[1]@);
    if owner.len() == 0 || repo.len() == 0 {
        return None;
    }
    let name = trim_trailing(&repo, ".git");
    if name.len() == 0 {
        return None;
    }
    let o = from_chars(&owner);
    let n = from_chars(&name);
    Some(concat(concat(o.as_str(), "/").as_str(), n.as_str()))
}

/// The repository that a query names, as `owner/repo`.
pub fn extract_owner_repo(q: &str) -> (r: Option<String>)
    ensures
        opt(r) == repo_of(q@),
{
    let v = to_chars(q);
    let t = trim_chars(&v);
    if link(&t) {
        return match path_after_host(&t) {
            Some(path) => slug(&path),
            None => None,
        };
    }
    let segs = split_chars(&t, '/');
    assert(split(t@, '/').len() == segs@.len());
    if segs.len() == 2 {
        slug(&t)
    } else {
        None
    }
}

/// What a query of the plugin manager starts.
#[derive(Debug)]
pub enum Task {
    /// Fetch and install this repository.
    Install(String),
    /// Search for these terms.
    Search(String),
}

/// Decides what a query starts.
pub fn run_task(query: &str) -> (r: Task)
    ensures
        match r {
            Task::Install(slug) => repo_of(query@) == Some(slug@),
            Task::Search(terms) => repo_of(query@) is None && terms@ == query@,
        },
{
    match extract_owner_repo(query) {
        Some(slug) => Task::Install(slug),
        None => Task::Search(query.to_owned()),
    }
}

// ---------- installing ----------

/// A path with one more component; an absolute one replaces it.
pub open spec fn path_join(base: Seq<char>, part: Seq<char>) -> Seq<char> {
    if part.len() > 0 && part[0] == '/' {
        part
    } else if base.len() == 0 || base.last() == '/' {
        base + part
    } else {
        base + "/"@ + part
    }
}

/// What follows the last slash.
pub open spec fn last_segment(s: Seq<char>) -> Seq<char> {
    split(s, '/').last()
}

/// Where the plugin of a repository lives below the data directory.
pub open spec fn install_dir(data_dir: Option<Seq<char>>, full_name: Seq<char>) -> Seq<char> {
    let base = match data_dir {
        Some(d) => d,
        None => "."@,
    };
    path_join(path_join(path_join(base, "cordanui"@), "plugins"@), last_segment(full_name))
}

/// A path with one more component.
pub fn join_path(base: &str, part: &str) -> (r: String)
    ensures
        r@ == path_join(base@, part@),
{
    let b = to_chars(base);
    let p = to_chars(part);
    if p.len() > 0 && p[0] == '/' {
        part.to_owned()
    } else if b.len() == 0 || b[b.len() - 1] == '/' {
        concat(base, part)
    } else {
        concat(concat(base, "/").as_str(), part)
    }
}

/// Where the plugin of a repository lives.
pub fn plugin_install_dir(data_dir: Option<&str>, full_name: &str) -> (r: String)
    ensures
        r@ == install_dir(crate::tree::key(data_dir), full_name@),
{
    let base = match data_dir {
        Some(d) => d,
        None => ".",
    };
    let v = to_chars(full_name);
    let segs = split_chars(&v, '/');
    let repo = from_chars(&segs[segs.len() - 1]);
    assert(split(full_name@, '/').last() == repo@) by {
        assert(split(full_name@, '/').len() == segs@.len());
    }
    let a = join_path(base, "cordanui");
    let b = join_path(a.as_str(), "plugins");
    join_path(b.as_str(), repo.as_str())
}

/// What an install does first: pull where the directory is there, clone where it
/// is not.
#[derive(Debug)]
pub enum Fetch {
    Pull,
    Clone { url: String },
}

/// Begins an install: what it reports and how it fetches the repository.
pub fn install_start(slug: &str, dest: &str, exists: bool) -> (r: (Vec<TaskEvent>, Fetch))
    ensures
        event_views(r.0@) == seq![
            EventView::Log("Fetching "@ + slug@ + "…"@),
            EventView::Log(
                if exists {
                    "Already installed — pulling updates (--progress)…"@
                } else {
                    "Cloning into '"@ + dest@ + "'…"@
                },
            ),
        ],
        exists ==> r.1 is Pull,
        !exists ==> (r.1 matches Fetch::Clone { url } && url@ == "https://github.com/"@ + slug@
            + ".git"@),
{
    let mut out: Vec<TaskEvent> = Vec::new();
    assert(event_views(out@) =~= Seq::empty());
    report(&mut out, TaskEvent::Log(concat(concat("Fetching ", slug).as_str(), "…")));
    let fetch = if exists {
        report(
            &mut out,
            TaskEvent::Log("Already installed — pulling updates (--progress)…".to_string()),
        );
        Fetch::Pull
    } else {
        report(&mut out, TaskEvent::Log(concat(concat("Cloning into '", dest).as_str(), "'…")));
        Fetch::Clone { url: concat(concat("https://github.com/", slug).as_str(), ".git") }
    };
    assert(event_views(out@) =~= seq![
        EventView::Log("Fetching "@ + slug@ + "…"@),
        EventView::Log(
            if exists {
                "Already installed — pulling updates (--progress)…"@
            } else {
                "Cloning into '"@ + dest@ + "'…"@
            },
        ),
    ]);
    (out, fetch)
}

/// What follows the fetch, and whether the install goes on: a failure is reported and
/// ends it. A failed clone leaves a directory that is to be removed; a failed pull
/// leaves the plugin as it was.
pub fn install_fetched(pulled: bool, failure: Option<String>) -> (r: (Vec<TaskEvent>, bool))
    ensures
        event_views(r.0@) == (match failure {
            Some(e) => seq![
                EventView::Error(
                    if pulled {
                        "update failed: "@ + e@
                    } else {
                        "clone failed: "@ + e@
                    },
                ),
            ],
            None => if pulled {
                Seq::empty()
            } else {
                seq![EventView::Log("Clone complete."@)]
            },
        }),
        r.1 == (failure is None),
{
    let mut out: Vec<TaskEvent> = Vec::new();
    assert(event_views(out@) =~= Seq::empty());
    let go_on = failure.is_none();
    match failure {
        Some(e) => {
            let text = if pulled {
                concat("update failed: ", e.as_str())
            } else {
                concat("clone failed: ", e.as_str())
            };
            report(&mut out, TaskEvent::Error(text));
            assert(event_views(out@) =~= seq![
                EventView::Error(
                    if pulled {
                        "update failed: "@ + e@
                    } else {
                        "clone failed: "@ + e@
                    },
                ),
            ]);
        },
        None => {
            if !pulled {
                report(&mut out, TaskEvent::Log("Clone complete.".to_string()));
                assert(event_views(out@) =~= seq![EventView::Log("Clone complete."@)]);
            }
        },
    }
    (out, go_on)
}

/// The capabilities that a manifest declares, in words.
pub open spec fn capabilities(m: Manifest) -> Seq<char> {
    let words = (if m.provider {
        seq!["provider"@]
    } else {
        seq![]
    }) + (if m.tool {
        seq!["tool"@]
    } else {
        seq![]
    }) + (if m.agent {
        seq!["agent"@]
    } else {
        seq![]
    }) + (if m.theme {
        seq!["theme"@]
    } else {
        seq![]
    }) + (if m.command {
        seq!["command"@]
    } else {
        seq![]
    });
    if words.len() == 0 {
        "no capabilities"@
    } else {
        joined(words, ", "@)
    }
}

/// The capabilities that a manifest declares, in words.
pub fn caps_label(m: &Manifest) -> (r: String)
    ensures
        r@ == capabilities(*m),
{
    let mut v: Vec<String> = Vec::new();
    if m.provider {
        v.push("provider".to_string());
    }
    if m.tool {
        v.push("tool".to_string());
    }
    if m.agent {
        v.push("agent".to_string());
    }
    if m.theme {
        v.push("theme".to_string());
    }
    if m.command {
        v.push("command".to_string());
    }
    proof {
        let words = (if m.provider {
            seq!["provider"@]
        } else {
            seq![]
        }) + (if m.tool {
            seq!["tool"@]
        } else {
            seq![]
        }) + (if m.agent {
            seq!["agent"@]
        } else {
            seq![]
        }) + (if m.theme {
            seq!["theme"@]
        } else {
            seq![]
        }) + (if m.command {
            seq!["command"@]
        } else {
            seq![]
        });
        assert(texts(v@) =~= words);
    }
    if v.len() == 0 {
        "no capabilities".to_string()
    } else {
        join(&v, ", ")
    }
}

/// The plural ending for a count.
pub open spec fn plural(n: nat) -> Seq<char> {
    if n == 1 {
        ""@
    } else {
        "s"@
    }
}

/// The plural ending for a count.
pub fn plural_of(n: usize) -> (r: &'static str)
    ensures
        r@ == plural(n as nat),
{
    if n == 1 {
        ""
    } else {
        "s"
    }
}

/// The names of some theme packs.
pub open spec fn theme_names(themes: Seq<ThemeFile>) -> Seq<Seq<char>> {
    themes.map_values(|t: ThemeFile| t.name@)
}

/// What the end of an install reports about the theme packs found.
pub open spec fn theme_report(theme: bool, themes: Seq<ThemeFile>) -> Seq<EventView> {
    if themes.len() > 0 {
        seq![
            EventView::Log(
                "  "@ + decimal(themes.len()) + " theme pack"@ + plural(themes.len()) + ": "@
                    + joined(theme_names(themes), ", "@),
            ),
        ]
    } else if theme {
        seq![EventView::Log("  note: theme plugin but no <id>.json theme files found"@)]
    } else {
        Seq::empty()
    }
}

/// Ends an install: the repository is a plugin only with a valid manifest.
pub fn install_done(
    manifest: &Result<Manifest, String>,
    dest: &str,
    themes: Vec<ThemeFile>,
) -> (r: Vec<TaskEvent>)
    ensures
        event_views(r@) == (match manifest {
            Err(e) => seq![EventView::Error("not a valid cordanui plugin: "@ + e@)],
            Ok(m) => theme_report(m.theme, themes@).push(
                EventView::Log(
                    "Manifest OK — "@ + m.name@ + " v"@ + m.version@ + " ("@ + capabilities(*m)
                        + ")"@,
                ),
            ).push(EventView::Installed { name: m.name@, dir: dest@, themes: themes@ }),
        }),
{
    let mut out: Vec<TaskEvent> = Vec::new();
    assert(event_views(out@) =~= Seq::empty());
    match manifest {
        Err(e) => {
            report(
                &mut out,
                TaskEvent::Error(concat("not a valid cordanui plugin: ", e.as_str())),
            );
            assert(event_views(out@) =~= seq![
                EventView::Error("not a valid cordanui plugin: "@ + e@),
            ]);
        },
        Ok(m) => {
            if themes.len() > 0 {
                let mut names: Vec<String> = Vec::new();
                for i in 0..themes.len()
                    invariant
                        texts(names@) =~= theme_names(themes@.take(i as int)),
                {
                    let ghost prev = texts(names@);
                    let name = themes[i].name.clone();
                    names.push(name);
                    assert(texts(names@) =~= prev.push(themes@[i as int].name@));
                    assert(theme_names(themes@.take(i + 1)) =~= theme_names(
                        themes@.take(i as int),
                    ).push(themes@[i as int].name@));
                }
                assert(themes@.take(themes@.len() as int) =~= themes@);
                let count = concat("  ", number(themes.len() as u64).as_str());
                let noun = concat(
                    concat(count.as_str(), " theme pack").as_str(),
                    plural_of(themes.len()),
                );
                let text = concat(
                    concat(noun.as_str(), ": ").as_str(),
                    join(&names, ", ").as_str(),
                );
                report(&mut out, TaskEvent::Log(text));
            } else if m.theme {
                report(
                    &mut out,
                    TaskEvent::Log(
                        "  note: theme plugin but no <id>.json theme files found".to_string(),
                    ),
                );
            }
            assert(event_views(out@) =~= theme_report(m.theme, themes@));
            let head = concat("Manifest OK — ", m.name.as_str());
            let version = concat(concat(head.as_str(), " v").as_str(), m.version.as_str());
            let caps = concat(concat(version.as_str(), " (").as_str(), caps_label(m).as_str());
            report(&mut out, TaskEvent::Log(concat(caps.as_str(), ")")));
            report(
                &mut out,
                TaskEvent::Installed { name: m.name.clone(), dir: dest.to_owned(), themes },
            );
        },
    }
    out
}

// ---------- the output of git ----------

/// The text of some bytes, where each invalid sequence is replaced.
pub uninterp spec fn lossy_text(bytes: Seq<u8>) -> Seq<char>;

/// Calls `String::from_utf8_lossy`. The text depends on the bytes alone and is
/// named by `lossy_text`; how invalid sequences are replaced is not stated.
#[verifier::external_body]
pub(crate) fn lossy(bytes: &Vec<u8>) -> (r: String)
    ensures
        r@ == lossy_text(bytes@),
{
    String::from_utf8_lossy(bytes).to_string()
}

/// Whether a byte ends a frame.
pub open spec fn is_break(b: u8) -> bool {
    b == 10 || b == 13
}

/// Where the first frame ends.
pub open spec fn first_break(buf: Seq<u8>) -> Option<int>
    decreases buf.len(),
{
    if buf.len() == 0 {
        None
    } else if is_break(buf[0]) {
        Some(0)
    } else {
        match first_break(buf.drop_first()) {
            Some(i) => Some(i + 1),
            None => None,
        }
    }
}

proof fn lemma_first_break(buf: Seq<u8>)
    ensures
        match first_break(buf) {
            Some(i) => 0 <= i < buf.len() && is_break(buf[i]) && forall|j: int|
                0 <= j < i ==> !is_break(#[trigger] buf[j]),
            None => forall|j: int| 0 <= j < buf.len() ==> !is_break(#[trigger] buf[j]),
        },
    decreases buf.len(),
{
    if buf.len() > 0 && !is_break(buf[0]) {
        let t = buf.drop_first();
        lemma_first_break(t);
        assert forall|j: int| 0 < j < buf.len() implies buf[j] == t[j - 1] by {}
    }
}

/// The first frame that is not blank, and what follows it; `None` where no
/// frame is complete, with what is left.
pub open spec fn frame_of(buf: Seq<u8>) -> (Option<Seq<char>>, Seq<u8>)
    decreases buf.len(),
    via frame_of_decreases
{
    match first_break(buf) {
        None => (None, buf),
        Some(i) => {
            let text = lossy_text(buf.take(i));
            if trimmed(text).len() > 0 {
                (Some(text), buf.skip(i + 1))
            } else {
                frame_of(buf.skip(i + 1))
            }
        },
    }
}

#[via_fn]
proof fn frame_of_decreases(buf: Seq<u8>) {
    lemma_first_break(buf);
}

fn byte_range(buf: &Vec<u8>, from: usize, to: usize) -> (r: Vec<u8>)
    requires
        from <= to <= buf@.len(),
    ensures
        r@ == buf@.subrange(from as int, to as int),
{
    let mut out: Vec<u8> = Vec::new();
    let mut i: usize = from;
    while i < to
        invariant
            from <= i <= to <= buf@.len(),
            out@ =~= buf@.subrange(from as int, i as int),
        decreases to - i,
    {
        out.push(buf[i]);
        i = i + 1;
    }
    out
}

fn find_break(buf: &Vec<u8>) -> (r: Option<usize>)
    ensures
        match r {
            Some(i) => first_break(buf@) == Some(i as int) && i < buf.len(),
            None => first_break(buf@) is None,
        },
{
    let mut i: usize = 0;
    while i < buf.len()
        invariant
            i <= buf@.len(),
            forall|j: int| 0 <= j < i ==> !is_break(#[trigger] buf@[j]),
        decreases buf@.len() - i,
    {
        if buf[i] == 10 || buf[i] == 13 {
            proof {
                lemma_first_break(buf@);
            }
            return Some(i);
        }
        i = i + 1;
    }
    proof {
        lemma_first_break(buf@);
    }
    None
}

/// Takes the next frame that is not blank out of the buffer. Frames end in a
/// carriage return or a line feed; where none is complete, more bytes are needed.
pub fn next_frame(buf: &mut Vec<u8>) -> (r: Option<String>)
    ensures
        opt(r) == frame_of(old(buf)@).0,
        final(buf)@ == frame_of(old(buf)@).1,
{
    let mut rest = byte_range(buf, 0, buf.len());
    assert(rest@ =~= buf@);
    let mut found: Option<String> = None;
    let mut looking = true;
    while looking
        invariant
            looking ==> found is None && frame_of(rest@) == frame_of(old(buf)@),
            !looking ==> opt(found) == frame_of(old(buf)@).0 && rest@ == frame_of(old(buf)@).1,
        decreases rest@.len() + (if looking {
            1int
        } else {
            0int
        }),
    {
        match find_break(&rest) {
            None => {
                looking = false;
            },
            Some(i) => {
                let seg = byte_range(&rest, 0, i);
                assert(seg@ =~= rest@.take(i as int));
                let tail = byte_range(&rest, i + 1, rest.len());
                assert(tail@ =~= rest@.skip(i + 1));
                let text = lossy(&seg);
                if !trim(text.as_str()).as_str().is_empty() {
                    found = Some(text);
                    looking = false;
                }
                rest = tail;
            },
        }
    }
    *buf = rest;
    found
}

/// At the end of the stream: whatever is left is the last frame.
pub fn last_frame(buf: &mut Vec<u8>) -> (r: Option<String>)
    ensures
        opt(r) == (if old(buf)@.len() == 0 {
            None
        } else {
            Some(lossy_text(old(buf)@))
        }),
        final(buf)@.len() == 0,
{
    if buf.len() == 0 {
        return None;
    }
    let text = lossy(buf);
    *buf = Vec::new();
    Some(text)
}

/// How a process ended.
#[derive(Clone, Copy, Debug, PartialEq, Eq, Structural)]
pub enum Exit {
    Success,
    Failure,
    Killed,
}

/// The last line of git that looks like an error.
#[derive(Debug)]
pub struct GitRun {
    pub last_error: Option<String>,
}

/// Whether a line of git looks like an error.
pub open spec fn looks_fatal(line: Seq<char>) -> bool {
    contains(line, "fatal"@) || contains(line, "error"@)
}

impl GitRun {
    /// A run without output.
    pub fn new() -> (r: GitRun)
        ensures
            r.last_error is None,
    {
        GitRun { last_error: None }
    }

    /// Takes in a frame and gives the line for the activity log; blank frames
    /// give none.
    pub fn frame(&mut self, frame: &str) -> (r: Option<String>)
        ensures
            opt(r) == (if trimmed(frame@).len() == 0 {
                None
            } else {
                Some("  "@ + truncated(trimmed(frame@), 60))
            }),
            opt(final(self).last_error) == (if looks_fatal(trimmed(frame@)) && trimmed(frame@).len()
                > 0 {
                Some(trimmed(frame@))
            } else {
                opt(old(self).last_error)
            }),
    {
        let line = trim(frame);
        if line.as_str().is_empty() {
            return None;
        }
        let shown = concat("  ", truncate(line.as_str(), 60).as_str());
        if str_contains(line.as_str(), "fatal") || str_contains(line.as_str(), "error") {
            self.last_error = Some(line);
        }
        Some(shown)
    }

    /// The failure that a run ended with, if it did.
    pub fn failure(&self, exit: Exit) -> (r: Option<String>)
        ensures
            opt(r) == (match exit {
                Exit::Success => None,
                Exit::Failure => match self.last_error {
                    Some(e) => Some(e@),
                    None => Some("git exited with an error"@),
                },
                Exit::Killed => Some("git was terminated"@),
            }),
    {
        match exit {
            Exit::Success => None,
            Exit::Failure => match &self.last_error {
                Some(e) => Some(e.clone()),
                None => Some("git exited with an error".to_string()),
            },
            Exit::Killed => Some("git was terminated".to_string()),
        }
    }
}

proof fn lemma_segments(a: Seq<char>, b: Seq<char>)
    requires
        forall|i: int| 0 <= i < a.len() ==> a[i] != '/',
    ensures
        split(a + "/"@ + b, '/') == seq![a] + split(b, '/'),
        split_once(a + "/"@ + b, '/') == Some((a, b)),
        split(a, '/') == seq![a],
{
    reveal_strlit("/");
    let s = a + "/"@ + b;
    lemma_first_index_is(s, '/', a.len() as int);
    assert(s.take(a.len() as int) =~= a);
    assert(s.skip(a.len() as int + 1) =~= b);
    lemma_first_index(a, '/');
}

/// Whether a text is a plain name: not empty, without slashes and white space, and without
/// `.git` behind it.
pub open spec fn is_plain_name(s: Seq<char>) -> bool {
    &&& s.len() > 0
    &&& forall|i: int| 0 <= i < s.len() ==> s[i] != '/' && !is_white_space(#[trigger] s[i])
    &&& !ends_with(s, ".git"@)
}

proof fn lemma_plain_name(s: Seq<char>)
    requires
        is_plain_name(s),
    ensures
        trimmed(s) == s,
        without_trailing(s, ".git"@) == s,
{
    let e = Seq::<char>::empty();
    law_trimming_cuts_blanks_at_both_ends(e, s, e);
    assert(e + s + e =~= s);
}

/// The owner and the repository are the first two segments of a path; what follows them
/// makes no difference, and neither does `.git` behind the repository.
pub proof fn law_a_path_names_a_repository(owner: Seq<char>, repo: Seq<char>, rest: Seq<char>)
    requires
        is_plain_name(owner),
        is_plain_name(repo),
        forall|i: int| 0 <= i < rest.len() ==> rest[i] != '/',
    ensures
        owner_repo(owner + "/"@ + repo) == Some(owner + "/"@ + repo),
        owner_repo(owner + "/"@ + (repo + "/"@ + rest)) == Some(owner + "/"@ + repo),
        owner_repo(owner + "/"@ + (repo + ".git"@)) == Some(owner + "/"@ + repo),
        owner_repo(owner) is None,
{
    reveal_strlit(".git");
    lemma_segments(owner, repo);
    lemma_segments(owner, repo + "/"@ + rest);
    lemma_segments(repo, rest);
    lemma_plain_name(owner);
    lemma_plain_name(repo);
    assert(split(owner + "/"@ + repo, '/')[1] == repo);
    let long = split(owner + "/"@ + (repo + "/"@ + rest), '/');
    assert(long[0] == owner && long[1] == repo);
    let dotted = repo + ".git"@;
    lemma_segments(owner, dotted);
    lemma_segments(dotted, rest);
    assert(split(owner + "/"@ + dotted, '/')[1] == dotted);
    let e = Seq::<char>::empty();
    law_trimming_cuts_blanks_at_both_ends(e, dotted, e);
    assert(e + dotted + e =~= dotted);
    assert(dotted.take(dotted.len() - 4) =~= repo);
    law_a_text_holds_its_parts(repo, ".git"@, e);
    assert(ends_with(dotted, ".git"@));
    assert(without_trailing(dotted, ".git"@) == without_trailing(repo, ".git"@));
}

/// An owner and a repository with a slash between them name the repository, unless they
/// begin as a link does.
pub proof fn law_owner_and_repository_are_a_name(owner: Seq<char>, repo: Seq<char>)
    requires
        is_plain_name(owner),
        is_plain_name(repo),
        !is_link(owner + "/"@ + repo),
    ensures
        repo_of(owner + "/"@ + repo) == Some(owner + "/"@ + repo),
{
    reveal_strlit("/");
    let t = owner + "/"@ + repo;
    let e = Seq::<char>::empty();
    assert(t[0] == owner[0] && t.last() == repo.last());
    law_trimming_cuts_blanks_at_both_ends(e, t, e);
    assert(e + t + e =~= t);
    law_a_path_names_a_repository(owner, repo, e);
    lemma_segments(owner, repo);
    lemma_segments(repo, e);
}

/// A link to GitHub names the repository that its path names.
pub proof fn law_links_name_a_repository(path: Seq<char>)
    requires
        path.len() > 0,
        !is_white_space(path.last()),
    ensures
        repo_of("https://github.com/"@ + path) == owner_repo(path),
        repo_of("http://github.com/"@ + path) == owner_repo(path),
        repo_of("https://www.github.com/"@ + path) == owner_repo(path),
        repo_of("github.com/"@ + path) == owner_repo(path),
{
    reveal_strlit("https://");
    reveal_strlit("http://");
    reveal_strlit("www.");
    reveal_strlit("github.com");
    reveal_strlit("github.com/");
    reveal_strlit("/");
    reveal_strlit("https://github.com/");
    reveal_strlit("http://github.com/");
    reveal_strlit("https://www.github.com/");
    let e = Seq::<char>::empty();
    let host = "github.com"@;
    let bare = "github.com/"@ + path;
    assert(bare =~= host + "/"@ + path);
    lemma_segments(host, path);
    assert(ascii_lower(host) =~= host);
    assert(!starts_with(bare, "www."@)) by {
        assert(bare[0] == 'g' && "www."@[0] == 'w');
    }
    let a = "https://github.com/"@ + path;
    assert(a =~= "https://"@ + bare);
    law_a_text_holds_its_parts(e, "https://"@, bare);
    law_trimming_cuts_blanks_at_both_ends(e, a, e);
    assert(e + a + e =~= a);
    let b = "http://github.com/"@ + path;
    assert(b =~= "http://"@ + bare);
    law_a_text_holds_its_parts(e, "http://"@, bare);
    law_trimming_cuts_blanks_at_both_ends(e, b, e);
    assert(e + b + e =~= b);
    assert(!starts_with(b, "https://"@)) by {
        assert(b[4] == ':' && "https://"@[4] == 's');
        if starts_with(b, "https://"@) {
            assert(b.take(8)[4] == b[4]);
        }
    }
    let c = "https://www.github.com/"@ + path;
    let www = "www."@ + bare;
    assert(c =~= "https://"@ + www);
    law_a_text_holds_its_parts(e, "https://"@, www);
    law_a_text_holds_its_parts(e, "www."@, bare);
    law_trimming_cuts_blanks_at_both_ends(e, c, e);
    assert(e + c + e =~= c);
    law_trimming_cuts_blanks_at_both_ends(e, bare, e);
    assert(e + bare + e =~= bare);
    law_a_text_holds_its_parts(e, "github.com/"@, path);
    assert(!starts_with(bare, "https://"@) && !starts_with(bare, "http://"@)) by {
        assert(bare[0] == 'g' && "https://"@[0] == 'h' && "http://"@[0] == 'h');
        if starts_with(bare, "https://"@) {
            assert(bare.take(8)[0] == bare[0]);
        }
        if starts_with(bare, "http://"@) {
            assert(bare.take(7)[0] == bare[0]);
        }
    }
}

/// A plugin lives in a folder with the name of its repository, below the data directory.
pub proof fn law_plugins_live_below_the_data_directory(
    dir: Seq<char>,
    owner: Seq<char>,
    repo: Seq<char>,
)
    requires
        dir.len() > 0,
        dir.last() != '/',
        is_plain_name(owner),
        is_plain_name(repo),
    ensures
        install_dir(Some(dir), owner + "/"@ + repo) == dir + "/cordanui/plugins/"@ + repo,
        install_dir(None, owner + "/"@ + repo) == "./cordanui/plugins/"@ + repo,
{
    reveal_strlit("/");
    reveal_strlit(".");
    reveal_strlit("cordanui");
    reveal_strlit("plugins");
    reveal_strlit("/cordanui/plugins/");
    reveal_strlit("./cordanui/plugins/");
    lemma_segments(owner, repo);
    lemma_segments(repo, repo);
    assert(last_segment(owner + "/"@ + repo) == repo);
    assert(install_dir(Some(dir), owner + "/"@ + repo) =~= dir + "/cordanui/plugins/"@ + repo);
    assert(install_dir(None, owner + "/"@ + repo) =~= "./cordanui/plugins/"@ + repo);
}

/// A component is put behind a slash, of which there is one; an absolute one stands alone.
pub proof fn law_paths_have_one_slash_between(base: Seq<char>, part: Seq<char>)
    requires
        part.len() > 0,
    ensures
        part[0] == '/' ==> path_join(base, part) == part,
        part[0] != '/' && base.len() > 0 && base.last() != '/' ==> path_join(base, part) == base
            + seq!['/'] + part,
        part[0] != '/' && base.len() > 0 && base.last() == '/' ==> path_join(base, part) == base
            + part,
{
    reveal_strlit("/");
    assert("/"@ =~= seq!['/']);
}

/// A frame ends at the first break behind it: nothing before it is a break.
pub proof fn law_frames_end_at_the_first_break(buf: Seq<u8>)
    ensures
        match first_break(buf) {
            Some(i) => 0 <= i < buf.len() && (buf[i] == 10 || buf[i] == 13) && forall|j: int|
                0 <= j < i ==> #[trigger] buf[j] != 10 && buf[j] != 13,
            None => forall|j: int| 0 <= j < buf.len() ==> #[trigger] buf[j] != 10 && buf[j] != 13,
        },
    decreases buf.len(),
{
    if buf.len() > 0 && !is_break(buf[0]) {
        let t = buf.drop_first();
        law_frames_end_at_the_first_break(t);
        assert(forall|j: int| 0 < j < buf.len() ==> #[trigger] buf[j] == t[j - 1]);
        if first_break(t) is Some {
            let i = first_break(t)->0;
            assert(buf[i + 1] == t[i]);
        }
    }
}

/// A frame in front of a break is handed out with what follows the break left; a blank one
/// is passed over, and an incomplete one stays.
pub proof fn law_frames_are_handed_out_in_order(frame: Seq<u8>, end: u8, rest: Seq<u8>)
    requires
        forall|j: int| 0 <= j < frame.len() ==> #[trigger] frame[j] != 10 && frame[j] != 13,
        end == 10 || end == 13,
    ensures
        trimmed(lossy_text(frame)).len() > 0 ==> frame_of(frame + seq![end] + rest) == (
            Some(lossy_text(frame)),
            rest,
        ),
        trimmed(lossy_text(frame)).len() == 0 ==> frame_of(frame + seq![end] + rest) == frame_of(
            rest,
        ),
        frame_of(frame) == (None::<Seq<char>>, frame),
{
    let buf = frame + seq![end] + rest;
    law_frames_end_at_the_first_break(buf);
    law_frames_end_at_the_first_break(frame);
    let n = frame.len() as int;
    assert(buf[n] == end);
    assert(forall|j: int| 0 <= j < n ==> #[trigger] buf[j] == frame[j]);
    let i = first_break(buf)->0;
    assert(i == n);
    assert(buf.take(n) =~= frame);
    assert(buf.skip(n + 1) =~= rest);
}

/// A capability is named exactly where it is declared first or behind others; a manifest
/// that declares none says so.
pub proof fn law_capabilities_are_declared(m: Manifest)
    ensures
        !m.provider && !m.tool && !m.agent && !m.theme && !m.command ==> capabilities(m)
            == "no capabilities"@,
        m.provider && !m.tool && !m.agent && !m.theme && !m.command ==> capabilities(m)
            == "provider"@,
        !m.provider && m.tool && !m.agent && !m.theme && !m.command ==> capabilities(m) == "tool"@,
        !m.provider && !m.tool && m.agent && !m.theme && !m.command ==> capabilities(m) == "agent"@,
        !m.provider && !m.tool && !m.agent && m.theme && !m.command ==> capabilities(m) == "theme"@,
        !m.provider && !m.tool && !m.agent && !m.theme && m.command ==> capabilities(m)
            == "command"@,
        m.provider && m.tool && m.agent && m.theme && m.command ==> capabilities(m) == joined(
            seq!["provider"@, "tool"@, "agent"@, "theme"@, "command"@],
            ", "@,
        ),
{
    let e = Seq::<Seq<char>>::empty();
    let sep = ", "@;
    if !m.tool && !m.agent && !m.theme && !m.command && m.provider {
        assert(seq!["provider"@] + e + e + e + e =~= seq!["provider"@]);
        law_joining_adds_up(seq!["provider"@], e, sep);
    }
    if m.tool && !m.agent && !m.theme && !m.command && !m.provider {
        assert(e + seq!["tool"@] + e + e + e =~= seq!["tool"@]);
        law_joining_adds_up(seq!["tool"@], e, sep);
    }
    if !m.tool && m.agent && !m.theme && !m.command && !m.provider {
        assert(e + e + seq!["agent"@] + e + e =~= seq!["agent"@]);
        law_joining_adds_up(seq!["agent"@], e, sep);
    }
    if !m.tool && !m.agent && m.theme && !m.command && !m.provider {
        assert(e + e + e + seq!["theme"@] + e =~= seq!["theme"@]);
        law_joining_adds_up(seq!["theme"@], e, sep);
    }
    if !m.tool && !m.agent && !m.theme && m.command && !m.provider {
        assert(e + e + e + e + seq!["command"@] =~= seq!["command"@]);
        law_joining_adds_up(seq!["command"@], e, sep);
    }
    if m.tool && m.agent && m.theme && m.command && m.provider {
        assert(seq!["provider"@] + seq!["tool"@] + seq!["agent"@] + seq!["theme"@] + seq![
            "command"@,
        ] =~= seq!["provider"@, "tool"@, "agent"@, "theme"@, "command"@]);
    }
}

/// A theme is taken from a file with an id, a name and an object of colors, and from no
/// other.
pub proof fn law_themes_have_an_id_a_name_and_colors(m: Map<Seq<char>, Seq<char>>)
    ensures
        theme_of(m) is Some <==> m.contains_key("id"@) && string_of(m["id"@]) is Some
            && m.contains_key("name"@) && string_of(m["name"@]) is Some && m.contains_key("colors"@)
            && m["colors"@].len() > 0 && m["colors"@][0] == '{',
        theme_of(m) is Some ==> string_of(m["id"@]) == Some(theme_of(m)->0.id) && string_of(
            m["name"@],
        ) == Some(theme_of(m)->0.name) && m["colors"@] == theme_of(m)->0.colors_json,
{
}

/// A failed update is listed with the name of its plugin and the reason.
pub proof fn law_failed_updates_are_listed(s: Seq<(String, Option<String>)>, k: int)
    requires
        0 <= k < s.len(),
        s[k].1 is Some,
    ensures
        update_failures(s).contains(s[k].0@ + ": "@ + s[k].1->0@),
        update_count(s) == s.filter(|e: (String, Option<String>)| e.1 is None).len(),
    decreases s.len(),
{
    lemma_update_count(s);
    let t = s.drop_last();
    let x = s[k].0@ + ": "@ + s[k].1->0@;
    if k < t.len() {
        assert(t[k] == s[k]);
        law_failed_updates_are_listed(t, k);
        let j = choose|j: int| 0 <= j < update_failures(t).len() && update_failures(t)[j] == x;
        assert(update_failures(s)[j] == x);
    } else {
        let all = update_failures(s);
        assert(all[all.len() - 1] == x);
    }
}

proof fn lemma_update_count(s: Seq<(String, Option<String>)>)
    ensures
        update_count(s) == s.filter(|e: (String, Option<String>)| e.1 is None).len(),
    decreases s.len(),
{
    reveal(Seq::filter);
    if s.len() > 0 {
        lemma_update_count(s.drop_last());
    }
}

proof fn lemma_summary(stars: Seq<char>, name: Seq<char>, tail: Seq<char>)
    ensures
        contains(stars + "★  "@ + name + tail, name),
        starts_with(stars + "★  "@ + name + tail, stars + "★"@),
        ends_with(stars + "★  "@ + name + tail, name + tail),
{
    reveal_strlit("★");
    reveal_strlit("★  ");
    reveal_strlit("  ");
    assert("★  "@ =~= "★"@ + "  "@);
    let s = stars + "★  "@ + name + tail;
    let a = stars + "★"@;
    let b = "  "@ + name + tail;
    let front = stars + "★  "@;
    assert(s =~= a + b);
    assert(s =~= front + (name + tail));
    law_a_text_holds_its_parts(front, name, tail);
    law_a_text_holds_its_parts(Seq::empty(), a, b);
    law_a_text_holds_its_parts(front, name + tail, Seq::empty());
}

/// A line of a search shows the stars and the name of a repository, and the start of its
/// description where it has one.
pub proof fn law_search_results_show_the_name(r: RepoInfo)
    ensures
        contains(summary_of(r), r.full_name@),
        starts_with(summary_of(r), padded_left(decimal(r.stars as nat), 4) + "★"@),
        r.description is Some && r.description->0@.len() > 0 ==> ends_with(
            summary_of(r),
            r.full_name@ + " — "@ + truncated(r.description->0@, 48),
        ),
        r.description is None || r.description->0@.len() == 0 ==> ends_with(
            summary_of(r),
            r.full_name@,
        ),
{
    let stars = padded_left(decimal(r.stars as nat), 4);
    let name = r.full_name@;
    if r.description is Some && r.description->0@.len() > 0 {
        let text = truncated(r.description->0@, 48);
        let tail = " — "@ + text;
        lemma_summary(stars, name, tail);
        assert(name + tail =~= name + " — "@ + text);
        assert(stars + "★  "@ + name + tail =~= stars + "★  "@ + name + " — "@ + text);
    } else {
        let e = Seq::<char>::empty();
        lemma_summary(stars, name, e);
        assert(name + e =~= name);
        assert(stars + "★  "@ + name + e =~= stars + "★  "@ + name);
    }
}

/// A line of git looks fatal where it says so.
pub proof fn law_fatal_lines_say_so(a: Seq<char>, b: Seq<char>, line: Seq<char>)
    ensures
        looks_fatal(a + "fatal"@ + b),
        looks_fatal(a + "error"@ + b),
        !contains(line, "fatal"@) && !contains(line, "error"@) ==> !looks_fatal(line),
{
    law_a_text_holds_its_parts(a, "fatal"@, b);
    law_a_text_holds_its_parts(a, "error"@, b);
}

/// The report of an install counts the theme packs that were found, and notes where a theme
/// plugin has none.
pub proof fn law_theme_packs_are_reported(theme: bool, themes: Seq<ThemeFile>)
    ensures
        themes.len() == 0 && !theme ==> theme_report(theme, themes).len() == 0,
        themes.len() == 0 && theme ==> theme_report(theme, themes).len() == 1,
        themes.len() == 1 ==> theme_report(theme, themes) == seq![
            EventView::Log("  "@ + decimal(1) + " theme pack"@ + ""@ + ": "@ + themes[0].name@),
        ],
        themes.len() > 1 ==> theme_report(theme, themes) == seq![
            EventView::Log(
                "  "@ + decimal(themes.len()) + " theme pack"@ + "s"@ + ": "@ + joined(
                    themes.map_values(|t: ThemeFile| t.name@),
                    ", "@,
                ),
            ),
        ],
{
    if themes.len() == 1 {
        let n = theme_names(themes);
        assert(n =~= seq![themes[0].name@]);
        law_joining_adds_up(n, Seq::empty(), ", "@);
    }
}

/// A repository without a description is one with an empty one.
pub proof fn law_blank_descriptions_are_dropped(r: RepoInfo)
    ensures
        without_blank(r).description is Some ==> without_blank(r).description->0@.len() > 0
            && without_blank(r).description == r.description,
        without_blank(r).description is None <==> r.description is None
            || r.description->0@.len() == 0,
        without_blank(r).full_name == r.full_name && without_blank(r).stars == r.stars,
{
}

} // verus!
