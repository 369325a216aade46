//! Finding, installing, listing and running plugins.

use cordanui::app::App;
use cordanui::collections::StrMap;
use cordanui::commands::load_plan;
use cordanui::db::PluginRow;
use cordanui::manager::{
    announce_agent_capability, toggle_changes_theme, toggle_writes, Installed, ServiceStep, TaskPoll,
    TaskStep, Toggle,
};
use cordanui::plugins::{
    caps_label, extract_owner_repo, forward, install_done, install_fetched, install_start, last_frame,
    next_frame, plugin_install_dir, run_task, search_outcome, theme_file, update_report, update_summary,
    Exit, Fetch, GitRun, RepoInfo, SearchOutcome, SearchRun, Task, TaskEvent, TaskState, ThemeFile,
};
use cordanui::theme::Theme;
use cordanui::types::Manifest;

fn manifest(name: &str) -> Manifest {
    Manifest {
        name: name.to_string(),
        version: "1.2.0".to_string(),
        description: "a plugin".to_string(),
        provider: true,
        tool: false,
        agent: false,
        theme: false,
        command: false,
        is_lua: false,
        binary: format!("/plugins/{}/bin", name),
        binary_exists: true,
        models: Some(vec!["m1".to_string(), "m2".to_string()]),
        ui: None,
        help: vec![],
        service_cmd: None,
    }
}

fn installed(name: &str, active: bool) -> Installed {
    Installed {
        row: PluginRow {
            id: name.to_string(),
            source: format!("o/{}", name),
            dir: format!("/plugins/{}", name),
            active,
            installed_at: String::new(),
        },
        manifest: Some(manifest(name)),
        settings: StrMap::new(),
        configures: false,
    }
}

fn app() -> App {
    App::new(vec![], vec![], Theme::builtin_dark())
}

#[test]
fn routes_exact_vs_search() {
    // GitHub URLs and bare slugs resolve to owner/repo…
    assert_eq!(
        extract_owner_repo("https://github.com/Arjith8/rosepine"),
        Some("Arjith8/rosepine".into())
    );
    assert_eq!(
        extract_owner_repo("http://www.github.com/o/r/tree/main"),
        Some("o/r".into())
    );
    assert_eq!(extract_owner_repo("github.com/o/r.git"), Some("o/r".into()));
    assert_eq!(extract_owner_repo("o/r"), Some("o/r".into()));
    assert_eq!(extract_owner_repo("  o/r  "), Some("o/r".into()));
    // …non-GitHub hosts, bare words, and junk fall back to search.
    assert_eq!(extract_owner_repo("https://gitlab.com/o/r"), None);
    assert_eq!(extract_owner_repo("just terms"), None);
    assert_eq!(extract_owner_repo("github.com"), None);
    assert_eq!(extract_owner_repo("github.com/onlyowner"), None);
}

#[test]
fn hosts_without_a_scheme_are_searched() {
    assert_eq!(extract_owner_repo("gitlab.com/o/r"), None);
    assert_eq!(extract_owner_repo("o/r/tree/main"), None);
    assert_eq!(extract_owner_repo("o/r/"), None);
    assert_eq!(extract_owner_repo("github.com/o/r/tree/main"), Some("o/r".into()));
}

#[test]
fn summaries_truncate() {
    let r = RepoInfo {
        full_name: "foo/bar".into(),
        description: Some("a very long description that keeps going way past the limit!!".into()),
        stars: 3,
    };
    let s = r.summary();
    assert!(s.contains('…'));
    assert!(s.starts_with("   3★"));
}

#[test]
fn install_dir_uses_repo_name() {
    let d = plugin_install_dir(Some("/home/u/.local/share"), "Arjith8/rosepine");
    assert!(d.ends_with("cordanui/plugins/rosepine"));
}

#[test]
fn scans_theme_files_and_skips_junk() {
    let files = [
        "{\"id\":\"my-theme\",\"name\":\"My Theme\",\"colors\":{\"bg\":\"#000000\",\"accent\":\"#ff0000\"}}",
        "{\"hello\":\"world\"}",
        "not json at all",
    ];
    let themes: Vec<ThemeFile> = files.iter().filter_map(|f| theme_file(f)).collect();
    assert_eq!(themes.len(), 1);
    assert_eq!(themes[0].id, "my-theme");
    assert_eq!(themes[0].name, "My Theme");
    // colors_json is the serialized colors object
    assert!(themes[0].colors_json.contains("\"bg\":\"#000000\""));
}

#[test]
fn a_task_installs_or_searches() {
    assert!(matches!(run_task("o/r"), Task::Install(s) if s == "o/r"));
    assert!(matches!(run_task("rose pine"), Task::Search(s) if s == "rose pine"));
}

#[test]
fn searches_end_in_results_or_reasons() {
    let repo = RepoInfo { full_name: "o/r".to_string(), description: Some(String::new()), stars: 1 };
    match search_outcome("rose", SearchRun::Listed(vec![repo])) {
        SearchOutcome::Results(v) => assert!(v[0].description.is_none()),
        other => panic!("unexpected outcome {:?}", other),
    }
    assert!(matches!(search_outcome("rose", SearchRun::Listed(vec![])), SearchOutcome::NotFound(_)));
    match search_outcome("rose", SearchRun::Failed("no network".to_string())) {
        SearchOutcome::Error(e) => assert!(e.contains("no network")),
        other => panic!("unexpected outcome {:?}", other),
    }
    assert!(matches!(search_outcome("rose", SearchRun::Missing), SearchOutcome::Error(_)));
    assert!(matches!(
        search_outcome("rose", SearchRun::Unreadable("eof".to_string())),
        SearchOutcome::Error(_)
    ));
    assert!(matches!(forward(SearchOutcome::NotFound("x".to_string())), TaskEvent::NotFound(_)));
}

#[test]
fn an_install_clones_or_pulls() {
    let (_, fetch) = install_start("o/r", "/d/r", false);
    assert!(matches!(fetch, Fetch::Clone { url } if url == "https://github.com/o/r.git"));
    let (_, fetch) = install_start("o/r", "/d/r", true);
    assert!(matches!(fetch, Fetch::Pull));
    let (_, go_on) = install_fetched(false, None);
    assert!(go_on);
    let (events, go_on) = install_fetched(false, Some("fatal: no".to_string()));
    assert!(!go_on);
    assert!(matches!(&events[events.len() - 1], TaskEvent::Error(e) if e.contains("fatal: no")));
    let (events, go_on) = install_fetched(true, Some("fatal: no".to_string()));
    assert!(!go_on);
    assert!(matches!(&events[events.len() - 1], TaskEvent::Error(e) if e.contains("fatal: no")));
    let (_, go_on) = install_fetched(true, None);
    assert!(go_on);
}

#[test]
fn an_install_ends_with_the_plugin() {
    let events = install_done(&Ok(manifest("r")), "/d/r", vec![]);
    assert!(matches!(
        &events[events.len() - 1],
        TaskEvent::Installed { name, dir, .. } if name == "r" && dir == "/d/r"
    ));
    let events = install_done(&Err("bad manifest".to_string()), "/d/r", vec![]);
    assert!(matches!(&events[events.len() - 1], TaskEvent::Error(e) if e.contains("bad manifest")));
    assert!(caps_label(&manifest("r")).contains("provider"));
}

#[test]
fn progress_is_cut_into_frames() {
    let mut buf: Vec<u8> = b"Receiving 10%\rReceiving 100%\nfatal: \xffno".to_vec();
    assert_eq!(next_frame(&mut buf).unwrap(), "Receiving 10%");
    assert_eq!(next_frame(&mut buf).unwrap(), "Receiving 100%");
    assert!(next_frame(&mut buf).is_none());
    // Bytes that are not UTF-8 are replaced.
    assert_eq!(last_frame(&mut buf).unwrap(), "fatal: \u{fffd}no");
    assert!(last_frame(&mut buf).is_none());
}

#[test]
fn the_last_error_explains_a_failed_run() {
    let mut run = GitRun::new();
    assert!(run.frame("Cloning into 'r'...").is_some());
    run.frame("fatal: repository not found");
    assert!(run.failure(Exit::Success).is_none());
    assert!(run.failure(Exit::Failure).unwrap().contains("repository not found"));
    assert!(GitRun::new().failure(Exit::Killed).is_some());
}

#[test]
fn the_task_log_is_shown_and_finished() {
    let mut app = app();
    app.open_plugin_manager(vec![]);
    app.start_install_mode();
    app.input.set_text("o/r".to_string());
    assert_eq!(app.start_plugin_search(), Some("o/r".to_string()));
    assert!(app.plugin_task);
    for i in 0..61 {
        app.poll_plugin_search(TaskPoll::Event(TaskEvent::Log(format!("line {}", i))));
    }
    match &app.plugin_state {
        TaskState::Working(log) => {
            assert_eq!(log.len(), 40);
            assert_eq!(log[39], "line 60");
        }
        other => panic!("unexpected state {:?}", other),
    }
    assert!(matches!(app.poll_plugin_search(TaskPoll::Empty), TaskStep::Wait));
    let step = app.poll_plugin_search(TaskPoll::Event(TaskEvent::Error("broken".to_string())));
    assert!(matches!(step, TaskStep::Failed { error } if error == "broken"));
    assert!(matches!(app.plugin_state, TaskState::Error(_)));
}

#[test]
fn toggling_and_services_follow_the_selection() {
    let mut app = app();
    assert!(app.toggle_plugin_active().is_none());
    app.open_plugin_manager(vec![installed("a", true).row, installed("b", false).row]);
    let t = app.toggle_plugin_active().unwrap();
    assert_eq!(t.id, "a");
    assert!(!t.activating);
    assert!(matches!(app.toggle_selected_service(true, false), ServiceStep::Start));
    assert!(matches!(app.toggle_selected_service(true, true), ServiceStep::Stop));
    assert!(matches!(app.toggle_selected_service(false, false), ServiceStep::Nothing));
    assert!(app.message.is_some());
    app.uninstall_selected_plugin(vec![installed("b", false).row]);
    assert_eq!(app.installed_plugins.len(), 1);
}

#[test]
fn the_agent_url_tells_of_runners() {
    assert_eq!(
        announce_agent_capability(&vec![installed("a", true)], &None),
        "http://localhost:8081"
    );
    let mut idle = installed("a", true);
    idle.manifest = None;
    assert_eq!(announce_agent_capability(&vec![idle], &None), "");
}

#[test]
fn active_plugins_are_loaded() {
    let plan = load_plan(&vec![installed("a", true), installed("b", false)]);
    assert_eq!(plan.len(), 1);
    assert_eq!(plan[0].name, "a");
    assert_eq!(plan[0].dir, "/plugins/a");
    assert!(!plan[0].is_lua);
}

#[test]
fn a_theme_plugin_brings_its_first_theme() {
    let toggle =
        |activating| Toggle { id: "p".to_string(), dir: "/d/p".to_string(), activating };
    let pack = Some(ThemeFile {
        id: "moon".to_string(),
        name: "Moon".to_string(),
        colors_json: "{}".to_string(),
    });
    let sql = |activating, is_theme, first: &Option<ThemeFile>| -> Vec<String> {
        toggle_writes(&toggle(activating), is_theme, first).into_iter().map(|s| s.sql).collect()
    };
    assert_eq!(sql(true, false, &pack), vec!["UPDATE plugins SET active = ? WHERE id = ?"]);
    assert_eq!(sql(false, false, &pack).len(), 1);
    let on = sql(true, true, &pack);
    assert_eq!(on.len(), 3);
    assert!(on[1].contains("'explicit'") && on[2].contains("'selected_theme_id'"));
    let writes = toggle_writes(&toggle(true), true, &pack);
    assert_eq!(format!("{:?}", writes[2].params), "[Text(\"moon\")]");
    assert_eq!(sql(true, true, &None).len(), 1);
    let off = sql(false, true, &None);
    assert_eq!(off.len(), 2);
    assert!(off[1].contains("'system'"));
    assert!(toggle_changes_theme(&toggle(false), true, &None));
    assert!(!toggle_changes_theme(&toggle(true), true, &None));
    assert!(!toggle_changes_theme(&toggle(false), false, &pack));
}

#[test]
fn every_update_is_counted_or_listed() {
    let outcomes = vec![
        ("a".to_string(), None),
        ("b".to_string(), Some("no network".to_string())),
        ("c".to_string(), None),
    ];
    match update_summary(&outcomes) {
        TaskEvent::UpdateFinished { updated, failed } => {
            assert_eq!(updated, 2);
            assert_eq!(failed, vec!["b: no network"]);
        }
        other => panic!("unexpected report {:?}", other),
    }
    assert!(update_report("b", &outcomes[1].1, vec![]).is_none());
    assert!(matches!(
        update_report("a", &None, vec![]),
        Some(TaskEvent::Updated { name, .. }) if name == "a"
    ));
}
