//! The agent backend: runs a provider plugin on a goal and writes progress and
//! outcome back.

use crate::db::{
    cell_int, cell_opt, cell_text, int_at, is_empty, opt_text_at, stmt, text_at, update, DbValue,
    Statement, Stmt, Val,
};
use crate::json::{new_object, no_members, object_text, put_string, string_text, to_text};
use crate::plugins::{join_path, path_join};
use crate::schema::{no_change, AgentStatus, Goal, GoalStatus, UpdateGoalInput};
use crate::text::{
    after_prefix, concat, decimal, from_chars, number, opt, opt_clone, parse_u16, parsed, str_eq,
    strip_prefix,
};
use crate::tree::key;
use crate::types::{AgentEvent, AgentRunConfig, Manifest};
use crate::view::concat3;
use vstd::prelude::*;

verus! {

// ---------- configuration ----------

/// How the backend runs.
#[derive(Debug)]
pub struct Config {
    /// Port to listen on.
    pub port: u16,
    /// If set, requests must carry `Authorization: Bearer <token>`.
    pub auth_token: Option<String>,
    /// Where the installed plugins live.
    pub plugin_dir: String,
    /// The provider plugin that runs the agents.
    pub provider_plugin: String,
    /// The model that is asked for.
    pub provider_model: Option<String>,
    /// The database; `None` for the default one.
    pub db_path: Option<String>,
}

/// The environment variables that configure the backend.
#[derive(Debug)]
pub struct Environment {
    /// `CORDANUI_PORT`
    pub port: Option<String>,
    /// `CORDANUI_AUTH_TOKEN`
    pub auth_token: Option<String>,
    /// `CORDANUI_PLUGIN_DIR`
    pub plugin_dir: Option<String>,
    /// `CORDANUI_PROVIDER_PLUGIN`
    pub provider_plugin: Option<String>,
    /// `CORDANUI_PROVIDER_MODEL`
    pub provider_model: Option<String>,
    /// `CORDANUI_DB_PATH`
    pub db_path: Option<String>,
}

/// The port without a setting.
pub const DEFAULT_PORT: u16 = 3737;

/// A text, unless it is empty.
pub open spec fn filled_text(s: Option<Seq<char>>) -> Option<Seq<char>> {
    if s is Some && s->0.len() > 0 {
        s
    } else {
        None
    }
}

fn unless_empty(s: &Option<String>) -> (r: Option<String>)
    ensures
        opt(r) == filled_text(opt(*s)),
{
    match s {
        Some(t) => {
            proof {
                reveal_strlit("");
                assert(t@.len() == 0 ==> t@ =~= ""@);
            }
            if str_eq(t.as_str(), "") {
                None
            } else {
                Some(t.clone())
            }
        },
        None => None,
    }
}

/// Where plugins live without a setting: below the data directory, or else below
/// that of the home directory.
pub open spec fn plugins_path(data_dir: Option<Seq<char>>, home: Option<Seq<char>>) -> Seq<char> {
    let base = match data_dir {
        Some(d) => d,
        None => path_join(path_join(home->0, ".local"@), "share"@),
    };
    path_join(path_join(base, "cordanui"@), "plugins"@)
}

/// Where plugins live without a setting.
pub fn default_plugin_dir(data_dir: Option<&str>, home: Option<&str>) -> (r: String)
    requires
        data_dir is Some || home is Some,
    ensures
        r@ == plugins_path(key(data_dir), key(home)),
{
    let base = match data_dir {
        Some(d) => d.to_owned(),
        None => match home {
            Some(h) => join_path(join_path(h, ".local").as_str(), "share"),
            None => String::new(),
        },
    };
    join_path(join_path(base.as_str(), "cordanui").as_str(), "plugins")
}

/// The port that a setting names, or the default one.
pub open spec fn port_of(s: Option<Seq<char>>) -> nat {
    match s {
        Some(t) => match parsed(t, u16::MAX as nat) {
            Some(n) => n,
            None => DEFAULT_PORT as nat,
        },
        None => DEFAULT_PORT as nat,
    }
}

impl Config {
    /// The configuration that the environment gives; `provider` is the provider plugin
    /// that is used where the environment names none.
    pub fn from_env(
        env: &Environment,
        provider: &str,
        data_dir: Option<&str>,
        home: Option<&str>,
    ) -> (r: Config)
        requires
            env.plugin_dir is Some || data_dir is Some || home is Some,
        ensures
            r.port == port_of(opt(env.port)),
            opt(r.auth_token) == filled_text(opt(env.auth_token)),
            r.plugin_dir@ == (match env.plugin_dir {
                Some(d) => d@,
                None => plugins_path(key(data_dir), key(home)),
            }),
            r.provider_plugin@ == (match env.provider_plugin {
                Some(p) => p@,
                None => provider@,
            }),
            opt(r.provider_model) == filled_text(opt(env.provider_model)),
            opt(r.db_path) == opt(env.db_path),
    {
        let port: u16 = match &env.port {
            Some(s) => match parse_u16(s.as_str()) {
                Some(n) => n,
                None => DEFAULT_PORT,
            },
            None => DEFAULT_PORT,
        };
        Config {
            port,
            auth_token: unless_empty(&env.auth_token),
            plugin_dir: match &env.plugin_dir {
                Some(d) => d.clone(),
                None => default_plugin_dir(data_dir, home),
            },
            provider_plugin: match &env.provider_plugin {
                Some(p) => p.clone(),
                None => provider.to_owned(),
            },
            provider_model: unless_empty(&env.provider_model),
            db_path: opt_clone(&env.db_path),
        }
    }
}

// ---------- database ----------

/// Reads a goal.
pub fn get_goal(id: &str) -> (r: Statement)
    ensures
        r@ == stmt(
            "SELECT id, title, description, status, parent_id, sort_order, created_at, updated_at, completed_at, agent_status, agent_result, agent_progress, metadata FROM goals WHERE id = ?"@,
        ).with(Val::Text(id@)),
{
    Statement::new(
        "SELECT id, title, description, status, parent_id, sort_order, created_at, updated_at, completed_at, agent_status, agent_result, agent_progress, metadata FROM goals WHERE id = ?",
    ).text(id)
}

/// Whether a goal is what a row holds, in the order of the columns that the backend
/// reads.
pub open spec fn task_row(
    g: Goal,
    row: Seq<DbValue>,
    status: GoalStatus,
    agent: Option<AgentStatus>,
) -> bool {
    &&& g.id@ == cell_text(row, 0)
    &&& g.title@ == cell_text(row, 1)
    &&& opt(g.description) == cell_opt(row, 2)
    &&& g.status == status
    &&& opt(g.parent_id) == cell_opt(row, 4)
    &&& g.sheet_id is None
    &&& g.sort_order == cell_int(row, 5)
    &&& g.created_at@ == cell_text(row, 6)
    &&& g.updated_at@ == cell_text(row, 7)
    &&& opt(g.completed_at) == cell_opt(row, 8)
    &&& g.agent_status == agent
    &&& opt(g.agent_result) == cell_opt(row, 10)
    &&& opt(g.agent_progress) == cell_opt(row, 11)
    &&& opt(g.metadata) == cell_opt(row, 12)
    &&& g.due_at is None
    &&& g.remind_at is None
    &&& g.repeat_rule is None
}

/// The goal that a row holds; the statuses are those that its fourth and tenth
/// columns name.
pub fn values_to_goal(
    row: &Vec<DbValue>,
    status: GoalStatus,
    agent: Option<AgentStatus>,
) -> (r: Goal)
    ensures
        task_row(r, row@, status, agent),
{
    Goal {
        id: text_at(row, 0),
        title: text_at(row, 1),
        description: opt_text_at(row, 2),
        status,
        parent_id: opt_text_at(row, 4),
        sheet_id: None,
        sort_order: int_at(row, 5),
        created_at: text_at(row, 6),
        updated_at: text_at(row, 7),
        completed_at: opt_text_at(row, 8),
        agent_status: agent,
        agent_result: opt_text_at(row, 10),
        agent_progress: opt_text_at(row, 11),
        metadata: opt_text_at(row, 12),
        due_at: None,
        remind_at: None,
        repeat_rule: None,
    }
}

/// What the backend writes of an update: place and dates of a goal are not its own.
pub open spec fn own_fields(input: UpdateGoalInput) -> UpdateGoalInput {
    UpdateGoalInput {
        parent_id: None,
        sheet_id: None,
        due_at: None,
        remind_at: None,
        repeat_rule: None,
        ..input
    }
}

/// Updates a goal, unless the update is empty; no row is marked for the next sync.
pub fn update_goal(id: &str, input: UpdateGoalInput, now: &str) -> (r: Option<Statement>)
    ensures
        match r {
            Some(s) => input != no_change() && s@ == (Stmt {
                marks: Seq::empty(),
                ..crate::db::update_goal(id@, own_fields(input), now@)
            }),
            None => input == no_change(),
        },
{
    if is_empty(&input) {
        return None;
    }
    let own = UpdateGoalInput {
        parent_id: None,
        sheet_id: None,
        due_at: None,
        remind_at: None,
        repeat_rule: None,
        ..input
    };
    let s = update(id, &own, now);
    let r = Statement { sql: s.sql, params: s.params, marks: Vec::new() };
    assert(r@.marks =~= Seq::empty());
    Some(r)
}

/// The update of a goal whose agent starts.
pub fn set_agent_running() -> (r: UpdateGoalInput)
    ensures
        r == (UpdateGoalInput { agent_status: Some(Some(AgentStatus::Running)), ..no_change() }),
{
    UpdateGoalInput {
        agent_status: Some(Some(AgentStatus::Running)),
        ..UpdateGoalInput::default()
    }
}

/// Whether an update writes progress and nothing else.
pub open spec fn writes_progress(u: UpdateGoalInput, json: Seq<char>) -> bool {
    &&& u.agent_progress matches Some(p) && opt(p) == Some(json)
    &&& u == UpdateGoalInput { agent_progress: u.agent_progress, ..no_change() }
}

/// The update of a goal whose agent has made progress.
pub fn write_progress(json: &str) -> (r: UpdateGoalInput)
    ensures
        writes_progress(r, json@),
{
    UpdateGoalInput { agent_progress: Some(Some(json.to_owned())), ..UpdateGoalInput::default() }
}

/// Whether an update completes a goal with a result and does nothing else.
pub open spec fn writes_result(u: UpdateGoalInput, json: Seq<char>, now: Seq<char>) -> bool {
    &&& u.agent_result matches Some(p) && opt(p) == Some(json)
    &&& u.completed_at matches Some(p) && opt(p) == Some(now)
    &&& u == UpdateGoalInput {
        agent_status: Some(Some(AgentStatus::Completed)),
        agent_result: u.agent_result,
        status: Some(GoalStatus::Completed),
        completed_at: u.completed_at,
        ..no_change()
    }
}

/// The update of a goal whose agent has succeeded.
pub fn write_result(json: &str, now: &str) -> (r: UpdateGoalInput)
    ensures
        writes_result(r, json@, now@),
{
    UpdateGoalInput {
        agent_status: Some(Some(AgentStatus::Completed)),
        agent_result: Some(Some(json.to_owned())),
        status: Some(GoalStatus::Completed),
        completed_at: Some(Some(now.to_owned())),
        ..UpdateGoalInput::default()
    }
}

/// The JSON text of an error.
pub open spec fn error_json(message: Seq<char>) -> Seq<char> {
    object_text(no_members().insert("error"@, string_text(message)))
}

/// Whether an update records a failure and does nothing else.
pub open spec fn writes_failure(u: UpdateGoalInput, message: Seq<char>) -> bool {
    &&& u.agent_result matches Some(p) && opt(p) == Some(error_json(message))
    &&& u == UpdateGoalInput {
        agent_status: Some(Some(AgentStatus::Failed)),
        agent_result: u.agent_result,
        ..no_change()
    }
}

/// The update of a goal whose agent has failed.
pub fn write_failure(message: &str) -> (r: UpdateGoalInput)
    ensures
        writes_failure(r, message@),
{
    let mut m = new_object();
    put_string(&mut m, "error", message);
    UpdateGoalInput {
        agent_status: Some(Some(AgentStatus::Failed)),
        agent_result: Some(Some(to_text(&m))),
        ..UpdateGoalInput::default()
    }
}

// ---------- execution ----------

/// How the execution of a task ended.
#[derive(Debug)]
pub struct ExecutionResult {
    pub task_id: String,
    pub success: bool,
    pub message: String,
}

/// Whether an execution ended so.
pub open spec fn ended(
    r: ExecutionResult,
    task_id: Seq<char>,
    success: bool,
    message: Seq<char>,
) -> bool {
    r.task_id@ == task_id && r.success == success && r.message@ == message
}

/// The goal of a task; a task without a goal, or with one that is not in agent mode,
/// ends without a write.
pub fn check_goal(task_id: &str, goal: Option<Goal>) -> (r: Result<Goal, ExecutionResult>)
    ensures
        match goal {
            None => r is Err && ended(
                r->Err_0,
                task_id@,
                false,
                "goal not found: "@ + task_id@,
            ),
            Some(g) => if g.status == GoalStatus::AgentMode {
                r == Ok::<Goal, ExecutionResult>(g)
            } else {
                r is Err && ended(
                    r->Err_0,
                    task_id@,
                    false,
                    "goal is not in agent mode: "@ + task_id@,
                )
            },
        },
{
    match goal {
        Some(g) => {
            if g.status == GoalStatus::AgentMode {
                return Ok(g);
            }
            Err(
                ExecutionResult {
                    task_id: task_id.to_owned(),
                    success: false,
                    message: concat("goal is not in agent mode: ", task_id),
                },
            )
        },
        None => Err(
            ExecutionResult {
                task_id: task_id.to_owned(),
                success: false,
                message: concat("goal not found: ", task_id),
            },
        ),
    }
}

/// The directory of the provider plugin.
pub open spec fn provider_path(c: Config) -> Seq<char> {
    path_join(c.plugin_dir@, c.provider_plugin@)
}

/// The directory of the provider plugin.
pub fn provider_dir(c: &Config) -> (r: String)
    ensures
        r@ == provider_path(*c),
{
    join_path(c.plugin_dir.as_str(), c.provider_plugin.as_str())
}

/// What was found in the directory of the provider plugin.
#[derive(Debug)]
pub enum Provider {
    /// There is no such directory.
    Missing,
    /// Its manifest cannot be read.
    Unreadable,
    /// Its manifest says this.
    Found(Manifest),
}

/// Why a provider plugin cannot run, if it cannot.
pub open spec fn provider_problem(c: Config, p: Provider) -> Option<Seq<char>> {
    match p {
        Provider::Missing => Some(
            "plugin directory not found: "@ + c.provider_plugin@ + " (expected at "@
                + provider_path(c) + ")"@,
        ),
        Provider::Unreadable => Some("parsing manifest for plugin: "@ + c.provider_plugin@),
        Provider::Found(m) => if !m.provider {
            Some("plugin "@ + c.provider_plugin@ + " does not declare the 'provider' capability"@)
        } else if !m.binary_exists {
            Some("plugin binary not found at "@ + m.binary@ + " — has it been built?"@)
        } else {
            None
        },
    }
}

/// The manifest of the provider plugin, or why it cannot run.
pub fn resolve_plugin(c: &Config, p: Provider) -> (r: Result<Manifest, String>)
    ensures
        match provider_problem(*c, p) {
            Some(e) => r is Err && r->Err_0@ == e,
            None => p matches Provider::Found(m) && r == Ok::<Manifest, String>(m),
        },
{
    match p {
        Provider::Missing => {
            let dir = provider_dir(c);
            let a = concat3("plugin directory not found: ", c.provider_plugin.as_str(), " (expected at ");
            Err(concat3(a.as_str(), dir.as_str(), ")"))
        },
        Provider::Unreadable => Err(
            concat("parsing manifest for plugin: ", c.provider_plugin.as_str()),
        ),
        Provider::Found(m) => {
            if !m.provider {
                return Err(
                    concat3(
                        "plugin ",
                        c.provider_plugin.as_str(),
                        " does not declare the 'provider' capability",
                    ),
                );
            }
            if !m.binary_exists {
                return Err(
                    concat3("plugin binary not found at ", m.binary.as_str(), " — has it been built?"),
                );
            }
            Ok(m)
        },
    }
}

/// The model that a run asks for: the configured one, or else the first that the
/// provider lists.
pub open spec fn run_model(c: Config, m: Manifest) -> Option<Seq<char>> {
    let model = match opt(c.provider_model) {
        Some(s) => Some(s),
        None => match m.models {
            Some(l) => if l@.len() > 0 {
                Some(l@[0]@)
            } else {
                None
            },
            None => None,
        },
    };
    filled_text(model)
}

fn model_of(c: &Config, m: &Manifest) -> (r: Option<String>)
    ensures
        opt(r) == run_model(*c, *m),
{
    let model: Option<String> = match &c.provider_model {
        Some(s) => Some(s.clone()),
        None => match &m.models {
            Some(l) => {
                if l.len() > 0 {
                    Some(l[0].clone())
                } else {
                    None
                }
            },
            None => None,
        },
    };
    unless_empty(&model)
}

/// How an execution goes on once the provider was looked for.
#[derive(Debug)]
pub enum Begin {
    /// Write this to the goal and end so.
    Fail { update: UpdateGoalInput, result: ExecutionResult },
    /// Write this to the goal and run this binary on it.
    Run { update: UpdateGoalInput, binary: String, config: AgentRunConfig },
}

/// Begins the run of a goal.
pub fn begin(c: &Config, task_id: &str, goal: &Goal, provider: Provider) -> (r: Begin)
    ensures
        match provider_problem(*c, provider) {
            Some(e) => {
                let text = "failed to resolve provider plugin: "@ + e;
                r matches Begin::Fail { update, result } && writes_failure(update, text) && ended(
                    result,
                    task_id@,
                    false,
                    text,
                )
            },
            None => provider matches Provider::Found(m) && r matches Begin::Run {
                update,
                binary,
                config,
            } && update == (UpdateGoalInput {
                agent_status: Some(Some(AgentStatus::Running)),
                ..no_change()
            }) && binary@ == m.binary@ && config.task_id@ == task_id@ && config.title@ == goal.title@
                && opt(config.description) == opt(goal.description) && opt(config.model)
                == run_model(*c, m) && config.config is None,
        },
{
    match resolve_plugin(c, provider) {
        Ok(m) => Begin::Run {
            update: set_agent_running(),
            binary: m.binary.clone(),
            config: AgentRunConfig {
                task_id: task_id.to_owned(),
                title: goal.title.clone(),
                description: opt_clone(&goal.description),
                model: model_of(c, &m),
                config: None,
            },
        },
        Err(e) => {
            let message = concat("failed to resolve provider plugin: ", e.as_str());
            Begin::Fail {
                update: write_failure(message.as_str()),
                result: ExecutionResult { task_id: task_id.to_owned(), success: false, message },
            }
        },
    }
}

/// The JSON text of some progress.
pub open spec fn progress_json(message: Seq<char>, now: Seq<char>) -> Seq<char> {
    object_text(
        no_members().insert("message"@, string_text(message)).insert(
            "timestamp"@,
            string_text(now),
        ),
    )
}

/// What an event of a run writes to its goal: progress is written as it comes.
pub fn on_event(event: &AgentEvent, now: &str) -> (r: Option<UpdateGoalInput>)
    ensures
        match event {
            AgentEvent::Progress { message, .. } => r is Some && writes_progress(
                r->0,
                progress_json(message@, now@),
            ),
            _ => r is None,
        },
{
    match event {
        AgentEvent::Progress { message, .. } => {
            let mut m = new_object();
            put_string(&mut m, "message", message.as_str());
            put_string(&mut m, "timestamp", now);
            Some(write_progress(to_text(&m).as_str()))
        },
        _ => None,
    }
}

/// How a run ended: with its last event, or not at all as a run.
#[derive(Debug)]
pub enum RunEnd {
    Last(AgentEvent),
    Failed(String),
}

/// Why a run failed, if it did.
pub open spec fn run_problem(end: RunEnd) -> Option<Seq<char>> {
    match end {
        RunEnd::Last(AgentEvent::Result(_)) => None,
        RunEnd::Last(AgentEvent::Error { message, detail }) => Some(
            match detail {
                Some(d) => message@ + ": "@ + d@,
                None => message@,
            },
        ),
        RunEnd::Last(AgentEvent::Progress { .. }) => Some(
            "plugin stream ended on a progress event (expected result or error)"@,
        ),
        RunEnd::Failed(e) => Some("plugin execution failed: "@ + e@),
    }
}

/// Ends the execution of a task; `result_json` is the JSON text of the result, where
/// there is one.
pub fn finish(task_id: &str, end: RunEnd, result_json: &str, now: &str) -> (r: (
    UpdateGoalInput,
    ExecutionResult,
))
    ensures
        match run_problem(end) {
            Some(e) => writes_failure(r.0, e) && ended(r.1, task_id@, false, e),
            None => end matches RunEnd::Last(AgentEvent::Result(a)) && writes_result(
                r.0,
                result_json@,
                now@,
            ) && ended(r.1, task_id@, true, a.content@),
        },
{
    let message = match end {
        RunEnd::Last(AgentEvent::Result(a)) => {
            return (
                write_result(result_json, now),
                ExecutionResult { task_id: task_id.to_owned(), success: true, message: a.content },
            );
        },
        RunEnd::Last(AgentEvent::Error { message, detail }) => match detail {
            Some(d) => concat3(message.as_str(), ": ", d.as_str()),
            None => message,
        },
        RunEnd::Last(AgentEvent::Progress { .. }) => {
            "plugin stream ended on a progress event (expected result or error)".to_string()
        },
        RunEnd::Failed(e) => concat("plugin execution failed: ", e.as_str()),
    };
    (
        write_failure(message.as_str()),
        ExecutionResult { task_id: task_id.to_owned(), success: false, message },
    )
}

/// A task succeeds exactly where its goal is completed.
pub proof fn law_success_completes(
    u: UpdateGoalInput,
    r: ExecutionResult,
    task_id: Seq<char>,
    end: RunEnd,
    json: Seq<char>,
    now: Seq<char>,
)
    requires
        match run_problem(end) {
            Some(e) => writes_failure(u, e) && ended(r, task_id, false, e),
            None => end matches RunEnd::Last(AgentEvent::Result(a)) && writes_result(u, json, now)
                && ended(r, task_id, true, a.content@),
        },
    ensures
        r.success <==> u.status == Some(GoalStatus::Completed),
        r.success <==> u.agent_status == Some(Some(AgentStatus::Completed)),
        !r.success <==> u.agent_status == Some(Some(AgentStatus::Failed)),
{
}

// ---------- requests ----------

/// The body of a run request.
#[derive(Debug)]
pub struct RunRequest {
    pub task_id: String,
}

/// The answer to a run request.
#[derive(Debug)]
pub struct RunResponse {
    pub task_id: String,
    pub accepted: bool,
    pub message: String,
}

/// The answer to a health request.
#[derive(Debug)]
pub struct HealthResponse {
    pub status: String,
    pub version: String,
}

/// Whether a byte of a header stands for a visible character.
pub open spec fn is_visible(b: u8) -> bool {
    32 <= b < 127 || b == 9
}

/// The text of a header, if all of it is visible.
pub open spec fn header_text(bytes: Seq<u8>) -> Option<Seq<char>> {
    if forall|i: int| 0 <= i < bytes.len() ==> is_visible(#[trigger] bytes[i]) {
        Some(bytes.map_values(|b: u8| b as char))
    } else {
        None
    }
}

/// Whether a request may pass: always without a token, or else with a header that
/// bears it.
pub open spec fn passes(header: Option<Seq<u8>>, token: Option<Seq<char>>) -> bool {
    match token {
        None => true,
        Some(t) => header is Some && header_text(header->0) is Some && after_prefix(
            header_text(header->0)->0,
            "Bearer "@,
        ) == Some(t),
    }
}

fn read_header(bytes: &Vec<u8>) -> (r: Option<Vec<char>>)
    ensures
        match r {
            Some(v) => header_text(bytes@) == Some(v@),
            None => header_text(bytes@) is None,
        },
{
    let mut out: Vec<char> = Vec::new();
    for i in 0..bytes.len()
        invariant
            out@ =~= bytes@.take(i as int).map_values(|b: u8| b as char),
            forall|j: int| 0 <= j < i ==> is_visible(#[trigger] bytes@[j]),
    {
        let b: u8 = bytes[i];
        if !(32 <= b && b < 127 || b == 9) {
            assert(!is_visible(bytes@[i as int]));
            return None;
        }
        out.push(b as char);
    }
    assert(bytes@.take(bytes@.len() as int) =~= bytes@);
    Some(out)
}

/// Whether a request with this authorization header may pass.
pub fn check_auth(header: &Option<Vec<u8>>, token: &Option<String>) -> (r: bool)
    ensures
        r == passes(
            match header {
                Some(h) => Some(h@),
                None => None,
            },
            opt(*token),
        ),
{
    let token = match token {
        Some(t) => t,
        None => {
            return true;
        },
    };
    let bytes = match header {
        Some(h) => h,
        None => {
            return false;
        },
    };
    match read_header(bytes) {
        Some(text) => match strip_prefix(&text, "Bearer ") {
            Some(rest) => str_eq(from_chars(&rest).as_str(), token.as_str()),
            None => false,
        },
        None => false,
    }
}

/// Answers a run request: the task is to be executed where the answer is not an
/// error. An error comes with its status code.
pub fn handle_run(header: &Option<Vec<u8>>, token: &Option<String>, req: &RunRequest) -> (r: Result<
    RunResponse,
    (u16, String),
>)
    ensures
        if passes(
            match header {
                Some(h) => Some(h@),
                None => None,
            },
            opt(*token),
        ) {
            r matches Ok(a) && a.task_id@ == req.task_id@ && a.accepted && a.message@
                == "task accepted, execution started"@
        } else {
            r matches Err(e) && e.0 == 401 && e.1@ == "unauthorized"@
        },
{
    if !check_auth(header, token) {
        return Err((401, "unauthorized".to_string()));
    }
    Ok(
        RunResponse {
            task_id: req.task_id.clone(),
            accepted: true,
            message: "task accepted, execution started".to_string(),
        },
    )
}

/// Answers a health request.
pub fn handle_health(version: &str) -> (r: HealthResponse)
    ensures
        r.status@ == "ok"@,
        r.version@ == version@,
{
    HealthResponse { status: "ok".to_string(), version: version.to_owned() }
}

/// The address that the backend listens on.
pub fn listen_addr(c: &Config) -> (r: String)
    ensures
        r@ == "0.0.0.0:"@ + decimal(c.port as nat),
{
    concat("0.0.0.0:", number(c.port as u64).as_str())
}

/// A header that bears the token passes; every other header fails.
pub proof fn law_only_the_token_passes(header: Seq<u8>, token: Seq<char>)
    ensures
        passes(Some(header), Some(token)) <==> header_text(header) == Some("Bearer "@ + token),
        !passes(None, Some(token)),
{
    let p = "Bearer "@;
    match header_text(header) {
        Some(t) => {
            if t == p + token {
                assert(t.take(p.len() as int) =~= p);
                assert(t.skip(p.len() as int) =~= token);
            }
            if after_prefix(t, p) == Some(token) {
                assert(t =~= p + token);
            }
        },
        None => {},
    }
}

/// The columns that the backend reads of a goal.
pub open spec fn task_columns() -> Seq<Seq<char>> {
    seq![
        "id"@,
        "title"@,
        "description"@,
        "status"@,
        "parent_id"@,
        "sort_order"@,
        "created_at"@,
        "updated_at"@,
        "completed_at"@,
        "agent_status"@,
        "agent_result"@,
        "agent_progress"@,
        "metadata"@,
    ]
}

/// Each field of a goal is read from the column with its name; what has no column is not
/// there.
pub proof fn law_tasks_are_read_by_column(
    g: Goal,
    row: Seq<DbValue>,
    status: GoalStatus,
    agent: Option<AgentStatus>,
    i: int,
)
    requires
        task_row(g, row, status, agent),
        0 <= i < 13,
    ensures
        g.status == status && g.agent_status == agent,
        task_columns()[i] == "id"@ ==> g.id@ == cell_text(row, i),
        task_columns()[i] == "title"@ ==> g.title@ == cell_text(row, i),
        task_columns()[i] == "description"@ ==> opt(g.description) == cell_opt(row, i),
        task_columns()[i] == "parent_id"@ ==> opt(g.parent_id) == cell_opt(row, i),
        task_columns()[i] == "sort_order"@ ==> g.sort_order == cell_int(row, i),
        task_columns()[i] == "created_at"@ ==> g.created_at@ == cell_text(row, i),
        task_columns()[i] == "updated_at"@ ==> g.updated_at@ == cell_text(row, i),
        task_columns()[i] == "completed_at"@ ==> opt(g.completed_at) == cell_opt(row, i),
        task_columns()[i] == "agent_result"@ ==> opt(g.agent_result) == cell_opt(row, i),
        task_columns()[i] == "agent_progress"@ ==> opt(g.agent_progress) == cell_opt(row, i),
        task_columns()[i] == "metadata"@ ==> opt(g.metadata) == cell_opt(row, i),
        g.sheet_id is None && g.due_at is None && g.remind_at is None && g.repeat_rule is None,
{
    lemma_task_columns();
    let c = task_columns();
    assert(c[0] == "id"@);
    assert(c[1] == "title"@);
    assert(c[2] == "description"@);
    assert(c[3] == "status"@);
    assert(c[4] == "parent_id"@);
    assert(c[5] == "sort_order"@);
    assert(c[6] == "created_at"@);
    assert(c[7] == "updated_at"@);
    assert(c[8] == "completed_at"@);
    assert(c[9] == "agent_status"@);
    assert(c[10] == "agent_result"@);
    assert(c[11] == "agent_progress"@);
    assert(c[12] == "metadata"@);
}

proof fn lemma_task_columns()
    ensures
        "id"@ != "title"@,
        "id"@ != "description"@,
        "id"@ != "status"@,
        "id"@ != "parent_id"@,
        "id"@ != "sort_order"@,
        "id"@ != "created_at"@,
        "id"@ != "updated_at"@,
        "id"@ != "completed_at"@,
        "id"@ != "agent_status"@,
        "id"@ != "agent_result"@,
        "id"@ != "agent_progress"@,
        "id"@ != "metadata"@,
        "title"@ != "description"@,
        "title"@ != "status"@,
        "title"@ != "parent_id"@,
        "title"@ != "sort_order"@,
        "title"@ != "created_at"@,
        "title"@ != "updated_at"@,
        "title"@ != "completed_at"@,
        "title"@ != "agent_status"@,
        "title"@ != "agent_result"@,
        "title"@ != "agent_progress"@,
        "title"@ != "metadata"@,
        "description"@ != "status"@,
        "description"@ != "parent_id"@,
        "description"@ != "sort_order"@,
        "description"@ != "created_at"@,
        "description"@ != "updated_at"@,
        "description"@ != "completed_at"@,
        "description"@ != "agent_status"@,
        "description"@ != "agent_result"@,
        "description"@ != "agent_progress"@,
        "description"@ != "metadata"@,
        "status"@ != "parent_id"@,
        "status"@ != "sort_order"@,
        "status"@ != "created_at"@,
        "status"@ != "updated_at"@,
        "status"@ != "completed_at"@,
        "status"@ != "agent_status"@,
        "status"@ != "agent_result"@,
        "status"@ != "agent_progress"@,
        "status"@ != "metadata"@,
        "parent_id"@ != "sort_order"@,
        "parent_id"@ != "created_at"@,
        "parent_id"@ != "updated_at"@,
        "parent_id"@ != "completed_at"@,
        "parent_id"@ != "agent_status"@,
        "parent_id"@ != "agent_result"@,
        "parent_id"@ != "agent_progress"@,
        "parent_id"@ != "metadata"@,
        "sort_order"@ != "created_at"@,
        "sort_order"@ != "updated_at"@,
        "sort_order"@ != "completed_at"@,
        "sort_order"@ != "agent_status"@,
        "sort_order"@ != "agent_result"@,
        "sort_order"@ != "agent_progress"@,
        "sort_order"@ != "metadata"@,
        "created_at"@ != "updated_at"@,
        "created_at"@ != "completed_at"@,
        "created_at"@ != "agent_status"@,
        "created_at"@ != "agent_result"@,
        "created_at"@ != "agent_progress"@,
        "created_at"@ != "metadata"@,
        "updated_at"@ != "completed_at"@,
        "updated_at"@ != "agent_status"@,
        "updated_at"@ != "agent_result"@,
        "updated_at"@ != "agent_progress"@,
        "updated_at"@ != "metadata"@,
        "completed_at"@ != "agent_status"@,
        "completed_at"@ != "agent_result"@,
        "completed_at"@ != "agent_progress"@,
        "completed_at"@ != "metadata"@,
        "agent_status"@ != "agent_result"@,
        "agent_status"@ != "agent_progress"@,
        "agent_status"@ != "metadata"@,
        "agent_result"@ != "agent_progress"@,
        "agent_result"@ != "metadata"@,
        "agent_progress"@ != "metadata"@,
{
    reveal_strlit("id");
    reveal_strlit("title");
    reveal_strlit("description");
    reveal_strlit("status");
    reveal_strlit("parent_id");
    reveal_strlit("sort_order");
    reveal_strlit("created_at");
    reveal_strlit("updated_at");
    reveal_strlit("completed_at");
    reveal_strlit("agent_status");
    reveal_strlit("agent_result");
    reveal_strlit("agent_progress");
    reveal_strlit("metadata");
    assert("id"@.len() != "title"@.len());
    assert("id"@.len() != "description"@.len());
    assert("id"@.len() != "status"@.len());
    assert("id"@.len() != "parent_id"@.len());
    assert("id"@.len() != "sort_order"@.len());
    assert("id"@.len() != "created_at"@.len());
    assert("id"@.len() != "updated_at"@.len());
    assert("id"@.len() != "completed_at"@.len());
    assert("id"@.len() != "agent_status"@.len());
    assert("id"@.len() != "agent_result"@.len());
    assert("id"@.len() != "agent_progress"@.len());
    assert("id"@.len() != "metadata"@.len());
    assert("title"@.len() != "description"@.len());
    assert("title"@.len() != "status"@.len());
    assert("title"@.len() != "parent_id"@.len());
    assert("title"@.len() != "sort_order"@.len());
    assert("title"@.len() != "created_at"@.len());
    assert("title"@.len() != "updated_at"@.len());
    assert("title"@.len() != "completed_at"@.len());
    assert("title"@.len() != "agent_status"@.len());
    assert("title"@.len() != "agent_result"@.len());
    assert("title"@.len() != "agent_progress"@.len());
    assert("title"@.len() != "metadata"@.len());
    assert("description"@.len() != "status"@.len());
    assert("description"@.len() != "parent_id"@.len());
    assert("description"@.len() != "sort_order"@.len());
    assert("description"@.len() != "created_at"@.len());
    assert("description"@.len() != "updated_at"@.len());
    assert("description"@.len() != "completed_at"@.len());
    assert("description"@.len() != "agent_status"@.len());
    assert("description"@.len() != "agent_result"@.len());
    assert("description"@.len() != "agent_progress"@.len());
    assert("description"@.len() != "metadata"@.len());
    assert("status"@.len() != "parent_id"@.len());
    assert("status"@.len() != "sort_order"@.len());
    assert("status"@.len() != "created_at"@.len());
    assert("status"@.len() != "updated_at"@.len());
    assert("status"@.len() != "completed_at"@.len());
    assert("status"@.len() != "agent_status"@.len());
    assert("status"@.len() != "agent_result"@.len());
    assert("status"@.len() != "agent_progress"@.len());
    assert("status"@.len() != "metadata"@.len());
    assert("parent_id"@.len() != "sort_order"@.len());
    assert("parent_id"@.len() != "created_at"@.len());
    assert("parent_id"@.len() != "updated_at"@.len());
    assert("parent_id"@.len() != "completed_at"@.len());
    assert("parent_id"@.len() != "agent_status"@.len());
    assert("parent_id"@.len() != "agent_result"@.len());
    assert("parent_id"@.len() != "agent_progress"@.len());
    assert("parent_id"@.len() != "metadata"@.len());
    assert("sort_order"@[0] != "created_at"@[0]);
    assert("sort_order"@[0] != "updated_at"@[0]);
    assert("sort_order"@.len() != "completed_at"@.len());
    assert("sort_order"@.len() != "agent_status"@.len());
    assert("sort_order"@.len() != "agent_result"@.len());
    assert("sort_order"@.len() != "agent_progress"@.len());
    assert("sort_order"@.len() != "metadata"@.len());
    assert("created_at"@[0] != "updated_at"@[0]);
    assert("created_at"@.len() != "completed_at"@.len());
    assert("created_at"@.len() != "agent_status"@.len());
    assert("created_at"@.len() != "agent_result"@.len());
    assert("created_at"@.len() != "agent_progress"@.len());
    assert("created_at"@.len() != "metadata"@.len());
    assert("updated_at"@.len() != "completed_at"@.len());
    assert("updated_at"@.len() != "agent_status"@.len());
    assert("updated_at"@.len() != "agent_result"@.len());
    assert("updated_at"@.len() != "agent_progress"@.len());
    assert("updated_at"@.len() != "metadata"@.len());
    assert("completed_at"@[0] != "agent_status"@[0]);
    assert("completed_at"@[0] != "agent_result"@[0]);
    assert("completed_at"@.len() != "agent_progress"@.len());
    assert("completed_at"@.len() != "metadata"@.len());
    assert("agent_status"@[6] != "agent_result"@[6]);
    assert("agent_status"@.len() != "agent_progress"@.len());
    assert("agent_status"@.len() != "metadata"@.len());
    assert("agent_result"@.len() != "agent_progress"@.len());
    assert("agent_result"@.len() != "metadata"@.len());
    assert("agent_progress"@.len() != "metadata"@.len());
}

/// An update of the backend writes neither the place nor the dates of a goal, and all else
/// that it was given.
pub proof fn law_the_backend_keeps_place_and_dates(input: UpdateGoalInput)
    ensures
        own_fields(input).parent_id is None && own_fields(input).sheet_id is None && own_fields(
            input,
        ).due_at is None && own_fields(input).remind_at is None && own_fields(
            input,
        ).repeat_rule is None,
        own_fields(input).title == input.title && own_fields(input).status == input.status
            && own_fields(input).agent_status == input.agent_status && own_fields(input).agent_result
            == input.agent_result && own_fields(input).agent_progress == input.agent_progress
            && own_fields(input).completed_at == input.completed_at,
        own_fields(own_fields(input)) == own_fields(input),
{
}

/// Progress, a result and a failure are told apart by what they write: progress leaves the
/// status as it is, a result completes the goal, and a failure marks its run alone.
pub proof fn law_runs_are_recorded(u: UpdateGoalInput, json: Seq<char>, text: Seq<char>)
    ensures
        writes_progress(u, json) ==> u.status is None && u.agent_status is None && u.agent_result
            is None && u.completed_at is None && u.agent_progress is Some && opt(
            u.agent_progress->0,
        ) == Some(json),
        writes_result(u, json, text) ==> u.status == Some(GoalStatus::Completed) && u.agent_status
            == Some(Some(AgentStatus::Completed)) && u.agent_result is Some && opt(
            u.agent_result->0,
        ) == Some(json) && u.completed_at is Some && opt(u.completed_at->0) == Some(text)
            && u.agent_progress is None,
        writes_failure(u, text) ==> u.status is None && u.agent_status == Some(
            Some(AgentStatus::Failed),
        ) && u.completed_at is None && u.agent_progress is None && u.agent_result is Some && opt(
            u.agent_result->0,
        ) == Some(object_text(Map::empty().insert("error"@, string_text(text)))),
        writes_progress(u, json) || writes_result(u, json, text) || writes_failure(u, text)
            ==> u.title is None && u.metadata is None,
{
}

/// A port is read from its decimal notation; where none is set, or where it is no port, it
/// is 3737.
pub proof fn law_ports_are_read(n: nat)
    ensures
        n <= 65535 ==> port_of(Some(crate::text::decimal(n))) == n,
        n > 65535 ==> port_of(Some(crate::text::decimal(n))) == 3737,
        port_of(None) == 3737,
{
    crate::text::law_numbers_are_read_back(n, 65535);
}

/// A provider runs only where it is there, can be read, provides, and has been built.
pub proof fn law_a_provider_must_be_built(c: Config, p: Provider)
    ensures
        provider_problem(c, p) is None <==> p is Found && p->Found_0.provider
            && p->Found_0.binary_exists,
        provider_problem(c, p) is Some && !(p is Found && p->Found_0.provider)
            ==> crate::text::contains(provider_problem(c, p)->0, c.provider_plugin@),
{
    let e = Seq::<char>::empty();
    if p is Missing {
        crate::text::law_a_text_holds_its_parts(
            "plugin directory not found: "@,
            c.provider_plugin@,
            " (expected at "@ + provider_path(c) + ")"@,
        );
        assert(provider_problem(c, p)->0 =~= "plugin directory not found: "@ + c.provider_plugin@ + (
        " (expected at "@ + provider_path(c) + ")"@));
    } else if p is Unreadable {
        crate::text::law_a_text_holds_its_parts(
            "parsing manifest for plugin: "@,
            c.provider_plugin@,
            e,
        );
        assert(provider_problem(c, p)->0 =~= "parsing manifest for plugin: "@ + c.provider_plugin@
            + e);
    } else if !p->Found_0.provider {
        crate::text::law_a_text_holds_its_parts(
            "plugin "@,
            c.provider_plugin@,
            " does not declare the 'provider' capability"@,
        );
    }
}

/// A run asks for the configured model; without one, for the first that the provider lists;
/// and for none where that is empty.
pub proof fn law_the_configured_model_runs(c: Config, m: Manifest)
    ensures
        c.provider_model is Some && c.provider_model->0@.len() > 0 ==> run_model(c, m) == Some(
            c.provider_model->0@,
        ),
        c.provider_model is Some && c.provider_model->0@.len() == 0 ==> run_model(c, m) is None,
        c.provider_model is None && m.models is Some && m.models->0@.len() > 0
            && m.models->0@[0]@.len() > 0 ==> run_model(c, m) == Some(m.models->0@[0]@),
        c.provider_model is None && (m.models is None || m.models->0@.len() == 0) ==> run_model(
            c,
            m,
        ) is None,
{
}

/// A header is read where each of its bytes stands for a visible character or a tab, byte
/// by byte.
pub proof fn law_headers_are_read_byte_by_byte(bytes: Seq<u8>, i: int)
    ensures
        header_text(bytes) is Some <==> forall|j: int|
            0 <= j < bytes.len() ==> (#[trigger] bytes[j] == 9 || 32 <= bytes[j] <= 126),
        header_text(bytes) is Some && 0 <= i < bytes.len() ==> header_text(bytes)->0.len()
            == bytes.len() && header_text(bytes)->0[i] == bytes[i] as char,
{
    if forall|j: int| 0 <= j < bytes.len() ==> (#[trigger] bytes[j] == 9 || 32 <= bytes[j] <= 126) {
        assert(forall|j: int| 0 <= j < bytes.len() ==> is_visible(#[trigger] bytes[j]));
    }
    if header_text(bytes) is Some {
        assert(forall|j: int| 0 <= j < bytes.len() ==> is_visible(#[trigger] bytes[j]));
    }
}

} // verus!
