//! Agent runs, the sync, services, the agent backend and the Zen provider.

use cordanui::agents::{
    agent_choices, agent_metadata, outcome_update, parse_range, patched_metadata, push_log,
    AgentPoll, AgentStep, AppGoalsHost, RunTarget,
};
use cordanui::app::App;
use cordanui::backend;
use cordanui::backend::{
    check_auth, check_goal, default_plugin_dir, finish, handle_health, handle_run, listen_addr,
    on_event, resolve_plugin, values_to_goal, Begin, Config, Environment, Provider, RunEnd,
    RunRequest,
};
use cordanui::collections::StrMap;
use cordanui::db::{DbValue, PluginRow};
use cordanui::manager::Installed;
use cordanui::schema::{AgentStatus, Goal, GoalStatus, UpdateGoalInput};
use cordanui::services::{
    already_running, args_iter_after, cli_list, cli_run, cli_start, cli_status, cli_stop, killed,
    logfile_path, no_service, pid_alive, pidfile_path, read_pid, spawn_error, started_message,
    unknown_subcommand, ServiceCommand, ServiceConfig, ServiceManager, StartStep, StopStep, Waited,
};
use cordanui::sync::SyncPoll;
use cordanui::theme::Theme;
use cordanui::types::{
    format_ago, AgentEvent, AgentFile, AgentResult, AgentRunConfig, Manifest, Mode, SyncStatus, Usage,
    SYNC_INTERVAL,
};
use cordanui::zen;
use cordanui::zen::{AnswerStream, CompleteRequest};

fn goal(id: &str, status: GoalStatus) -> Goal {
    Goal {
        id: id.to_string(),
        title: format!("goal {}", id),
        description: Some("do it".to_string()),
        status,
        parent_id: None,
        sheet_id: None,
        sort_order: 0,
        created_at: id.to_string(),
        updated_at: String::new(),
        completed_at: None,
        agent_status: None,
        agent_result: None,
        agent_progress: None,
        metadata: None,
        due_at: None,
        remind_at: None,
        repeat_rule: None,
    }
}

fn manifest(name: &str) -> Manifest {
    Manifest {
        name: name.to_string(),
        version: "1.2.0".to_string(),
        description: "a plugin".to_string(),
        provider: true,
        tool: false,
        agent: false,
        theme: false,
        command: false,
        is_lua: false,
        binary: format!("/plugins/{}/bin", name),
        binary_exists: true,
        models: Some(vec!["m1".to_string(), "m2".to_string()]),
        ui: None,
        help: vec![],
        service_cmd: Some("node".to_string()),
    }
}

fn plugin_row(name: &str) -> PluginRow {
    PluginRow {
        id: name.to_string(),
        source: format!("o/{}", name),
        dir: format!("/plugins/{}", name),
        active: true,
        installed_at: String::new(),
    }
}

fn installed(name: &str) -> Installed {
    Installed {
        row: plugin_row(name),
        manifest: Some(manifest(name)),
        settings: StrMap::new(),
        configures: false,
    }
}

fn strings(list: &[&str]) -> Vec<String> {
    list.iter().map(|s| s.to_string()).collect()
}

// ---------- runs ----------

#[test]
fn every_model_is_a_choice() {
    let choices = agent_choices(&vec![installed("a")]);
    assert_eq!(choices.len(), 2);
    assert_eq!(choices[1].model.as_deref(), Some("m2"));
    assert_eq!(choices[0].binary, "/plugins/a/bin");
}

#[test]
fn a_run_is_followed_to_its_end() {
    let goals = || vec![goal("g", GoalStatus::AgentMode)];
    let mut app = App::new(goals(), vec![], Theme::builtin_dark());
    app.open_agent_picker("g".to_string(), &vec![installed("a")]);
    assert!(matches!(app.mode, Mode::AgentPicker { .. }));
    let run = app.agent_run("g").unwrap();
    assert_eq!(run.title, "goal g");
    assert!(run.metadata.contains("\"m1\""), "{}", run.metadata);
    assert!(matches!(run.target(), RunTarget::Binary { path } if path == "/plugins/a/bin"));
    app.start_agent_run(&run, goals());
    assert!(app.agent_waiting);
    assert!(matches!(app.mode, Mode::AgentRunning { .. }));
    let step = app.poll_agent_events(AgentPoll::Progress {
        message: "working".to_string(),
        detail: None,
    });
    assert!(matches!(step, AgentStep::Note { .. }));
    assert!(matches!(app.poll_agent_events(AgentPoll::Empty), AgentStep::Wait));
    let step = app.poll_agent_events(AgentPoll::Done { result_json: "{}".to_string() });
    assert!(matches!(step, AgentStep::Finish { completed: true, .. }));
    assert_eq!(app.finish_agent_run().as_deref(), Some("g"));
    app.agent_run_finished(goals(), true);
    assert!(!app.agent_waiting);
}

#[test]
fn a_run_that_goes_away_has_failed() {
    let goals = || vec![goal("g", GoalStatus::AgentMode)];
    let mut app = App::new(goals(), vec![], Theme::builtin_dark());
    app.open_agent_picker("g".to_string(), &vec![installed("a")]);
    let run = app.agent_run("g").unwrap();
    app.start_agent_run(&run, goals());
    let step = app.poll_agent_events(AgentPoll::Failed {
        message: "no".to_string(),
        detail: Some("way".to_string()),
    });
    assert!(matches!(
        step,
        AgentStep::Finish { completed: false, error: Some((m, Some(d))), .. }
            if m == "no" && d == "way"
    ));
    assert_eq!(outcome_update(false, "x".to_string()).agent_status, Some(Some(AgentStatus::Failed)));
    assert_eq!(outcome_update(true, "x".to_string()).agent_status, Some(Some(AgentStatus::Completed)));
}

#[test]
fn a_range_of_goals_is_assigned() {
    assert_eq!(parse_range("a-c"), ("a".to_string(), "c".to_string()));
    assert_eq!(parse_range("b"), ("b".to_string(), "b".to_string()));
    let host = AppGoalsHost::new(vec![
        goal("a", GoalStatus::Pending),
        goal("b", GoalStatus::Pending),
        goal("c", GoalStatus::Pending),
    ]);
    assert_eq!(host.list_goals().len(), 3);
    assert_eq!(host.assign_range_to_agent("a", "b"), vec!["a", "b"]);
    assert!(host.assign_to_agent("missing", &None, &None).is_err());
    let update = host.assign_to_agent("a", &Some("p".to_string()), &None).unwrap().unwrap();
    assert_eq!(update.metadata, Some(Some("{\"agent\":\"p\"}".to_string())));
}

#[test]
fn metadata_keeps_what_it_held() {
    let meta = Some("{\"x\":1}".to_string());
    let r = agent_metadata(&meta, &Some("p".to_string()), &Some("m".to_string()));
    assert!(r.contains("\"x\":1") && r.contains("\"p\"") && r.contains("\"m\""), "{r}");
    let file = AgentFile {
        path: "mobile.json".to_string(),
        content: Some("{\"k\":true}".to_string()),
    };
    let r = patched_metadata(&meta, &file).unwrap();
    assert!(r.contains("\"k\":true") && r.contains("\"x\":1"), "{r}");
    let other = AgentFile { path: "notes.md".to_string(), content: Some("{}".to_string()) };
    assert!(patched_metadata(&meta, &other).is_none());
}

#[test]
fn the_agent_log_is_bounded() {
    let mut log: Vec<String> = vec![];
    for i in 0..200 {
        push_log(&mut log, format!("{}", i));
        assert!(log.len() <= 60);
    }
    assert_eq!(log[log.len() - 1], "199");
}

// ---------- sync ----------

#[test]
fn sync_status_transitions() {
    let mut app = App::new(vec![], vec![], Theme::builtin_dark());
    assert!(matches!(app.sync_status, SyncStatus::NotConfigured));

    // No handle: polling never leaves NotConfigured.
    app.poll_sync(SyncPoll::Empty, 1000);
    assert!(matches!(app.sync_status, SyncStatus::NotConfigured));

    // Attach: fires immediately.
    app.attach_sync_db();
    let step = app.poll_sync(SyncPoll::Empty, 1000);
    assert!(step.start);
    assert!(matches!(app.sync_status, SyncStatus::Syncing));

    // Worker finishes → Synced.
    app.poll_sync(SyncPoll::Done, 1001);
    assert!(matches!(app.sync_status, SyncStatus::Synced { .. }));
    assert!(!app.sync_in_flight);

    // Inside SYNC_INTERVAL: not due again.
    app.poll_sync(SyncPoll::Empty, 1002);
    assert!(matches!(app.sync_status, SyncStatus::Synced { .. }));

    // After the interval elapses (simulate by backdating), due again.
    app.last_sync_attempt = Some(1002 - SYNC_INTERVAL - 1);
    app.poll_sync(SyncPoll::Empty, 1002);
    assert!(matches!(app.sync_status, SyncStatus::Syncing));

    // Manual request while due is honored; format helper sanity.
    app.request_sync();
    assert!(app.last_sync_attempt.is_none());
    assert_eq!(format_ago(0), "just now");
}

#[test]
fn a_failed_sync_is_reported() {
    let mut app = App::new(vec![], vec![], Theme::builtin_dark());
    app.attach_sync_db();
    app.poll_sync(SyncPoll::Empty, 10);
    let step = app.poll_sync(SyncPoll::Failed("offline".to_string()), 11);
    assert!(step.error.unwrap().contains("offline"));
    assert!(matches!(&app.sync_status, SyncStatus::Failed { error, .. } if error.contains("offline")));
}

#[test]
fn a_sync_without_a_handle_is_refused() {
    let mut app = App::new(vec![], vec![], Theme::builtin_dark());
    app.request_sync();
    assert!(!app.poll_sync(SyncPoll::Empty, 10_000).start);
}

// ---------- services ----------

fn sleepy() -> ServiceConfig {
    ServiceConfig {
        cmd: "/bin/sleep".to_string(),
        args: strings(&["5"]),
        addr: Some("http://127.0.0.1:18081".to_string()),
        health: None,
        autostart: false,
    }
}

#[test]
fn service_lifecycle_start_stop() {
    let mut manager = ServiceManager::new();
    manager.register("sleepy", "/plugins/lifecycle", sleepy());

    assert!(!manager.is_running("sleepy", Waited::Failed));
    match manager.start_registered("sleepy", false, &vec![]).unwrap() {
        StartStep::Spawn { cmd, args, dir } => {
            assert_eq!(cmd, "/bin/sleep");
            assert_eq!(args, vec!["5"]);
            assert_eq!(dir, "/plugins/lifecycle");
        }
        other => panic!("unexpected step {:?}", other),
    }
    manager.service_started("sleepy", 42);
    assert!(manager.is_running("sleepy", Waited::Alive));
    // The pid file is for a stop from elsewhere.
    assert!(read_pid(" 42\n").is_some());

    // Starting twice is a no-op, not a second process.
    let running = manager.is_running("sleepy", Waited::Alive);
    assert!(matches!(
        manager.start_registered("sleepy", running, &vec![]).unwrap(),
        StartStep::Nothing
    ));

    assert!(manager.stop_service("sleepy"));
    assert!(!manager.is_running("sleepy", Waited::Alive));
    assert!(!manager.stop_service("sleepy"));
    assert_eq!(manager.recent_logs("sleepy"), vec!["[started pid 42]", "[stopped]"]);
}

#[test]
fn start_unknown_service_errors() {
    let manager = ServiceManager::new();
    let err = manager.start_registered("ghost", false, &vec![]).unwrap_err();
    assert!(err.contains("no service registered"));
}

#[test]
fn an_exited_service_is_forgotten() {
    let mut manager = ServiceManager::default();
    manager.service_started("a", 1);
    assert!(!manager.is_running("a", Waited::Exited));
    assert!(!manager.is_running("a", Waited::Alive));
}

#[test]
fn the_service_log_is_capped() {
    let mut manager = ServiceManager::new();
    for pid in 0..150 {
        manager.service_started("a", pid);
    }
    manager.service_started("b", 7);
    let log = manager.recent_logs("a");
    assert_eq!(log.len(), 100);
    assert_eq!(log[99], "[started pid 149]");
    assert_eq!(manager.recent_logs("b").len(), 1);
    assert_eq!(manager.recent_logs("c").len(), 0);
}

#[test]
fn a_later_registration_replaces_the_first() {
    let mut manager = ServiceManager::new();
    manager.register("a", "/one", sleepy());
    let mut other = sleepy();
    other.cmd = "node".to_string();
    manager.register("a", "/two", other);
    assert_eq!(manager.registered_spec("a").unwrap().cmd, "node");
    assert!(manager.registered_spec("b").is_none());
    match manager.start_registered("a", false, &strings(&["-v"])).unwrap() {
        StartStep::Spawn { args, dir, .. } => {
            assert_eq!(args, vec!["5", "-v"]);
            assert_eq!(dir, "/two");
        }
        other => panic!("unexpected step {:?}", other),
    }
}

#[test]
fn service_files_live_together() {
    assert_eq!(
        pidfile_path(Some("/data"), "chat"),
        "/data/cordanui/services/chat.pid"
    );
    assert_eq!(logfile_path(None, "chat"), "./cordanui/services/chat.log");
    assert_eq!(pid_alive(17), "/proc/17");
    assert_eq!(read_pid("17\n"), Some(17));
    assert_eq!(read_pid("-3"), None);
    assert_eq!(read_pid("4294967296"), None);
}

#[test]
fn spawn_errors_say_what_is_missing() {
    let e = spawn_error("bun", "/d", "not found", true, " (bun.sh)");
    assert_eq!(
        e,
        "spawning 'bun' in /d: not found — binary not found in PATH. Install 'bun' (bun.sh) or use absolute `cmd` in cordanui.toml [service]"
    );
    assert_eq!(spawn_error("bun", "/d", "denied", false, ""), "spawning 'bun' in /d: denied");
}

#[test]
fn the_service_command_line_is_read() {
    assert!(matches!(cli_run(&vec![]), ServiceCommand::List));
    match cli_run(&strings(&["start", "chat", "--", "-p", "1"])) {
        ServiceCommand::Start { plugin, extra } => {
            assert_eq!(plugin.as_deref(), Some("chat"));
            assert_eq!(extra, vec!["-p", "1"]);
        }
        other => panic!("unexpected command {:?}", other),
    }
    assert!(matches!(cli_run(&strings(&["stop"])), ServiceCommand::Stop { plugin: None }));
    assert!(matches!(cli_run(&strings(&["status", "x"])), ServiceCommand::Status { plugin: Some(_) }));
    assert!(matches!(cli_run(&strings(&["dance"])), ServiceCommand::Unknown { name } if name == "dance"));
    assert_eq!(unknown_subcommand("dance").0, "unknown subcommand 'dance'");
    assert_eq!(args_iter_after(&strings(&["a"]), 5), Vec::<String>::new());
    assert_eq!(args_iter_after(&strings(&["a", "b"]), 1), vec!["b"]);
}

#[test]
fn the_service_command_line_answers() {
    assert_eq!(cli_list(&vec![installed("a")]), vec!["a  active  [node]"]);
    assert_eq!(cli_list(&vec![]), vec!["no installed plugins expose a [service]"]);
    let rows = vec![plugin_row("a")];
    assert_eq!(cli_start(&Some("a".to_string()), &rows).unwrap().dir, "/plugins/a");
    assert_eq!(
        cli_start(&Some("b".to_string()), &rows).unwrap_err(),
        "plugin 'b' is not installed"
    );
    assert!(cli_start(&None, &rows).unwrap_err().starts_with("usage:"));
    assert_eq!(no_service("a"), "plugin 'a' declares no [service]");
    assert_eq!(already_running("a", Some(3), true).unwrap(), "a already running (pid 3)");
    assert!(already_running("a", Some(3), false).is_none());
    assert_eq!(started_message("a", 3, "/l"), "started a (pid 3) — logs: /l");
    let a = Some("a".to_string());
    assert!(matches!(cli_stop(&a, Some(3), true).unwrap(), StopStep::Kill(3)));
    assert!(matches!(cli_stop(&a, Some(3), false).unwrap(), StopStep::Clean(_)));
    assert!(matches!(cli_stop(&a, None, false).unwrap(), StopStep::Print(_)));
    assert!(cli_stop(&None, None, false).is_err());
    assert_eq!(killed("a", 3, true).unwrap(), "stopped a (pid 3)");
    assert_eq!(killed("a", 3, false).unwrap_err(), "failed to kill pid 3");
    assert_eq!(cli_status(&a, Some(3), true).unwrap(), "a running (pid 3)");
    assert_eq!(cli_status(&a, Some(3), false).unwrap(), "a not running (stale pidfile)");
    assert_eq!(cli_status(&a, None, false).unwrap(), "a not running");
    assert!(cli_status(&None, None, false).is_err());
}

// ---------- backend ----------

fn no_env() -> Environment {
    Environment {
        port: None,
        auth_token: None,
        plugin_dir: None,
        provider_plugin: None,
        provider_model: None,
        db_path: None,
    }
}

fn config() -> Config {
    Config::from_env(&no_env(), "provider-zen", Some("/data"), None)
}

#[test]
fn config_defaults() {
    let dir = default_plugin_dir(None, Some("/home/u"));
    assert!(dir.contains("cordanui"));
    assert!(dir.contains("plugins"));
    assert_eq!(dir, "/home/u/.local/share/cordanui/plugins");
    let c = config();
    assert_eq!(c.port, 3737);
    assert_eq!(c.provider_plugin, "provider-zen");
    assert_eq!(c.plugin_dir, "/data/cordanui/plugins");
    assert!(c.auth_token.is_none());
    assert_eq!(listen_addr(&c), "0.0.0.0:3737");
}

#[test]
fn config_is_read_from_the_environment() {
    let mut env = no_env();
    env.port = Some("80".to_string());
    env.auth_token = Some(String::new());
    env.plugin_dir = Some("/p".to_string());
    env.provider_model = Some("m".to_string());
    env.provider_plugin = Some("provider-x".to_string());
    let c = Config::from_env(&env, "provider-zen", None, None);
    assert_eq!(c.port, 80);
    assert!(c.auth_token.is_none());
    assert_eq!(c.plugin_dir, "/p");
    assert_eq!(c.provider_model.as_deref(), Some("m"));
    assert_eq!(c.provider_plugin, "provider-x");
    env.port = Some("70000".to_string());
    assert_eq!(Config::from_env(&env, "provider-zen", None, None).port, 3737);
}

#[test]
fn only_the_token_passes() {
    let token = Some("abc".to_string());
    let header = |s: &str| Some(s.as_bytes().to_vec());
    assert!(check_auth(&None, &None));
    assert!(check_auth(&header("Bearer abc"), &token));
    assert!(!check_auth(&header("Bearer abcd"), &token));
    assert!(!check_auth(&header("bearer abc"), &token));
    assert!(!check_auth(&header("Bearer abc\n"), &token));
    assert!(!check_auth(&None, &token));
    let req = RunRequest { task_id: "g".to_string() };
    let (code, message) = handle_run(&None, &token, &req).unwrap_err();
    assert_eq!(code, 401);
    assert_eq!(message, "unauthorized");
    let ok = handle_run(&header("Bearer abc"), &token, &req).unwrap();
    assert!(ok.accepted);
    assert_eq!(ok.task_id, "g");
    assert_eq!(ok.message, "task accepted, execution started");
    assert_eq!(handle_health("0.1.0").status, "ok");
}

#[test]
fn a_task_needs_a_goal_in_agent_mode() {
    let e = check_goal("g", None).unwrap_err();
    assert_eq!(e.message, "goal not found: g");
    assert!(!e.success);
    let e = check_goal("g", Some(goal("g", GoalStatus::Pending))).unwrap_err();
    assert_eq!(e.message, "goal is not in agent mode: g");
    assert!(check_goal("g", Some(goal("g", GoalStatus::AgentMode))).is_ok());
}

#[test]
fn the_provider_is_resolved() {
    let c = config();
    assert_eq!(
        resolve_plugin(&c, Provider::Missing).unwrap_err(),
        "plugin directory not found: provider-zen (expected at /data/cordanui/plugins/provider-zen)"
    );
    assert_eq!(
        resolve_plugin(&c, Provider::Unreadable).unwrap_err(),
        "parsing manifest for plugin: provider-zen"
    );
    let mut m = manifest("provider-zen");
    m.provider = false;
    assert!(resolve_plugin(&c, Provider::Found(m)).unwrap_err().contains("'provider' capability"));
    let mut m = manifest("provider-zen");
    m.binary_exists = false;
    assert!(resolve_plugin(&c, Provider::Found(m)).unwrap_err().contains("has it been built?"));
}

#[test]
fn a_run_begins_with_the_first_model() {
    let g = goal("g", GoalStatus::AgentMode);
    match backend::begin(&config(), "g", &g, Provider::Found(manifest("provider-zen"))) {
        Begin::Run { update, config, .. } => {
            assert_eq!(update.agent_status, Some(Some(AgentStatus::Running)));
            assert_eq!(config.model.as_deref(), Some("m1"));
            assert_eq!(config.description.as_deref(), Some("do it"));
        }
        other => panic!("unexpected beginning {:?}", other),
    }
    match backend::begin(&config(), "g", &g, Provider::Missing) {
        Begin::Fail { update, result } => {
            assert_eq!(update.agent_status, Some(Some(AgentStatus::Failed)));
            assert!(update.agent_result.unwrap().unwrap().starts_with("{\"error\":\"failed to"));
            assert!(result.message.starts_with("failed to resolve provider plugin: "));
        }
        other => panic!("unexpected beginning {:?}", other),
    }
}

#[test]
fn progress_and_outcome_are_written() {
    let e = AgentEvent::Progress { message: "half".to_string(), detail: None };
    let u = on_event(&e, "now").unwrap();
    assert_eq!(
        u.agent_progress,
        Some(Some("{\"message\":\"half\",\"timestamp\":\"now\"}".to_string()))
    );
    let result = AgentResult { content: "done".to_string(), files: vec![], usage: None };
    let (u, r) = finish("g", RunEnd::Last(AgentEvent::Result(result)), "{\"content\":\"done\"}", "now");
    assert!(r.success);
    assert_eq!(r.message, "done");
    assert_eq!(u.status, Some(GoalStatus::Completed));
    assert_eq!(u.completed_at, Some(Some("now".to_string())));
    let error = AgentEvent::Error { message: "a".to_string(), detail: Some("b".to_string()) };
    let (u, r) = finish("g", RunEnd::Last(error), "", "now");
    assert!(!r.success);
    assert_eq!(r.message, "a: b");
    assert!(u.status.is_none());
    let (_, r) = finish("g", RunEnd::Last(e), "", "now");
    assert!(r.message.contains("progress event"));
    let (_, r) = finish("g", RunEnd::Failed("io".to_string()), "", "now");
    assert_eq!(r.message, "plugin execution failed: io");
}

#[test]
fn the_backend_writes_its_own_fields() {
    assert!(backend::update_goal("g", UpdateGoalInput::default(), "now").is_none());
    let input = UpdateGoalInput {
        title: Some("t".to_string()),
        sheet_id: Some(None),
        ..UpdateGoalInput::default()
    };
    let s = backend::update_goal("g", input, "now").unwrap();
    assert_eq!(s.sql, "UPDATE goals SET title = ?, updated_at = ? WHERE id = ?");
    assert!(s.marks.is_empty());
    let mut row = vec![DbValue::Text("g".to_string()), DbValue::Text("t".to_string())];
    for _ in 2..5 {
        row.push(DbValue::Null);
    }
    row.push(DbValue::Integer(3));
    let g = values_to_goal(&row, GoalStatus::AgentMode, None);
    assert_eq!(g.sort_order, 3);
    assert_eq!(g.title, "t");
}

// ---------- zen ----------

fn run_config(model: Option<&str>, description: Option<&str>) -> AgentRunConfig {
    AgentRunConfig {
        task_id: "g".to_string(),
        title: "Learn".to_string(),
        description: description.map(|d| d.to_string()),
        model: model.map(|m| m.to_string()),
        config: None,
    }
}

#[test]
fn a_completion_is_asked_and_read() {
    let request = CompleteRequest {
        model: "x".to_string(),
        prompt: "hi".to_string(),
        system: Some("be brief".to_string()),
        max_tokens: Some(9),
    };
    let r = zen::complete_request("", &request);
    assert_eq!(r.model, "gpt-5.4");
    assert_eq!(r.messages.len(), 2);
    assert_eq!(r.messages[0].role, "system");
    assert_eq!(r.messages[1].content, "hi");
    assert!(!r.stream);
    assert_eq!(zen::chat_url(), "https://opencode.ai/zen/v1/chat/completions");
    let usage = Usage { prompt_tokens: 1, completion_tokens: 2, total_tokens: None };
    let c = zen::complete_response(&strings(&["one", "two"]), Some(usage)).unwrap();
    assert_eq!(c.content, "one");
    assert_eq!(c.usage, Some(usage));
    assert_eq!(zen::complete_response(&vec![], None).unwrap_err(), "Zen API returned no choices");
    assert_eq!(zen::api_error("404 Not Found", "x"), "Zen API error 404 Not Found: x");
}

#[test]
fn a_run_is_asked_with_its_task() {
    let r = zen::run_request(&run_config(Some("qwen"), Some("rust")));
    assert_eq!(r.model, "qwen");
    assert!(r.stream);
    assert!(r.messages[0].content.ends_with("\n\nTask description: rust"));
    assert_eq!(
        r.messages[1].content,
        "Task: Learn\n\nPlease work on completing the task."
    );
    let r = zen::run_request(&run_config(Some(""), Some("")));
    assert_eq!(r.model, "gpt-5.4");
    assert!(r.messages[0].content.ends_with("do so."));
    assert!(matches!(
        zen::starting(&run_config(None, None)),
        AgentEvent::Progress { detail: Some(d), .. } if d == "model: default"
    ));
    assert!(matches!(zen::failed("e"), AgentEvent::Error { detail: Some(d), .. } if d == "e"));
}

#[test]
fn a_stream_is_read_line_by_line() {
    let mut s = AnswerStream::new();
    s.feed(&b": ping\n\ndata: one\r\nda".to_vec());
    assert_eq!(s.next_data().as_deref(), Some("one"));
    assert!(s.next_data().is_none());
    s.feed(&b"ta: two\ndata: [DONE]\n".to_vec());
    assert_eq!(s.next_data().as_deref(), Some("two"));
    assert!(s.next_data().is_none());
    let e = s.received(Some("é!".to_string())).unwrap();
    assert!(matches!(
        e,
        AgentEvent::Progress { message, detail: Some(d) } if message == "Received 3 chars..." && d == "é!"
    ));
    assert!(s.received(Some(String::new())).is_none());
    assert!(s.received(None).is_none());
    s.received(Some("x".to_string()));
    assert!(matches!(s.result(), AgentEvent::Result(r) if r.content == "é!x" && r.files.is_empty()));
}

#[test]
fn only_the_first_choice_of_a_chunk_counts() {
    let text = |s: &str| Some(s.to_string());
    assert_eq!(zen::first_delta(&vec![text("a"), text("b")]), text("a"));
    assert_eq!(zen::first_delta(&vec![None, text("b")]), None);
    assert_eq!(zen::first_delta(&vec![]), None);
}
